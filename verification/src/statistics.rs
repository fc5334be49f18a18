//! The statistics page: what was used when and by whom, drawn from the balances
//! that were seen, the check-in log and the stored accounts.
use vstd::prelude::*;
use crate::account;
use crate::clock;
use crate::clock::LocalDays;
use crate::config;
use crate::credit_usage;
use crate::credit_usage::{Snapshot, SnapshotV};
use crate::json;
use crate::json::{Json, JsonV};
use crate::numbers;
use crate::text;
use crate::text::same;
use crate::variant::WbVariant;

verus! {

/// The snapshots of a list.
pub open spec fn snapshots_view(s: Seq<Snapshot>) -> Seq<SnapshotV> {
    Seq::new(s.len(), |i: int| s[i]@)
}

/// A snapshot put into a list by time, behind those of its own time.
pub open spec fn placed(s: Seq<SnapshotV>, x: SnapshotV) -> Seq<SnapshotV>
    decreases s.len(),
{
    if s.len() == 0 || s[s.len() - 1].ts <= x.ts {
        s.push(x)
    } else {
        placed(s.subrange(0, s.len() - 1), x).push(s[s.len() - 1])
    }
}

proof fn placed_at(s: Seq<SnapshotV>, x: SnapshotV, i: int)
    requires
        0 <= i <= s.len(),
        forall|j: int| i <= j < s.len() ==> (#[trigger] s[j]).ts > x.ts,
        i == 0 || s[i - 1].ts <= x.ts,
    ensures
        placed(s, x) == s.insert(i, x),
    decreases s.len(),
{
    if i == s.len() {
        assert(s.insert(i, x) =~= s.push(x));
    } else {
        let n = s.len() - 1;
        placed_at(s.subrange(0, n), x, i);
        assert(s.subrange(0, n).insert(i, x).push(s[n]) =~= s.insert(i, x));
    }
}

/// The snapshots of the records within the retention time, by time; those of one
/// time in the order of the records.
pub open spec fn sorted_snapshots(records: Seq<JsonV>, at: int) -> Seq<SnapshotV>
    decreases records.len(),
{
    if records.len() == 0 {
        Seq::empty()
    } else {
        let rest = sorted_snapshots(records.subrange(0, records.len() - 1), at);
        match credit_usage::snapshot_in(records[records.len() - 1]) {
            Some(s) => if credit_usage::in_time(s.ts, at) {
                placed(rest, s)
            } else {
                rest
            },
            None => rest,
        }
    }
}

fn place(list: &mut Vec<Snapshot>, x: Snapshot)
    ensures
        snapshots_view(final(list)@) == placed(snapshots_view(old(list)@), x@),
{
    let ghost before = list@;
    let mut i: usize = list.len();
    while i > 0 && list[i - 1].ts > x.ts
        invariant
            i <= list@.len(),
            list@ == before,
            forall|j: int| i <= j < list@.len() ==> (#[trigger] snapshots_view(list@)[j]).ts > x@.ts,
        decreases i,
    {
        i -= 1;
    }
    proof {
        if i > 0 {
            assert(snapshots_view(before)[i - 1].ts <= x@.ts);
        }
        placed_at(snapshots_view(before), x@, i as int);
    }
    list.insert(i, x);
    assert(snapshots_view(list@) =~= snapshots_view(before).insert(i as int, x@));
}

/// The snapshots of the records within the retention time, by time.
pub fn parse_snapshots(records: &[Json], at_ms: i64) -> (r: Vec<Snapshot>)
    ensures
        snapshots_view(r@) == sorted_snapshots(json::list_view(records@), at_ms as int),
{
    let ghost all = json::list_view(records@);
    let cutoff: i64 = clock::minus(at_ms, credit_usage::CREDIT_SNAPSHOT_RETENTION_MS);
    let mut list: Vec<Snapshot> = Vec::new();
    let mut i: usize = 0;
    assert(snapshots_view(list@) =~= sorted_snapshots(all.subrange(0, 0), at_ms as int));
    while i < records.len()
        invariant
            i <= records@.len(),
            all == json::list_view(records@),
            cutoff == clock::clamped(at_ms - credit_usage::CREDIT_SNAPSHOT_RETENTION_MS),
            snapshots_view(list@) == sorted_snapshots(all.subrange(0, i as int), at_ms as int),
        decreases records@.len() - i,
    {
        assert(all.subrange(0, i + 1).subrange(0, i as int) =~= all.subrange(0, i as int));
        assert(all[i as int] == records@[i as int]@);
        match credit_usage::snapshot_from_value(&records[i]) {
            Some(s) => {
                if cutoff <= s.ts && s.ts <= at_ms {
                    place(&mut list, s);
                }
            },
            None => {},
        }
        i += 1;
    }
    assert(all.subrange(0, all.len() as int) =~= all);
    list
}

proof fn placing_keeps_order(s: Seq<SnapshotV>, x: SnapshotV)
    requires
        forall|i: int, j: int| 0 <= i <= j < s.len() ==> (#[trigger] s[i]).ts <= (#[trigger] s[j]).ts,
    ensures
        forall|i: int, j: int|
            0 <= i <= j < placed(s, x).len() ==> (#[trigger] placed(s, x)[i]).ts <= (#[trigger] placed(s, x)[j]).ts,
        placed(s, x).len() == s.len() + 1,
        s.len() > 0 ==> placed(s, x)[s.len() as int].ts == (if s[s.len() - 1].ts <= x.ts {
            x.ts
        } else {
            s[s.len() - 1].ts
        }),
    decreases s.len(),
{
    if !(s.len() == 0 || s[s.len() - 1].ts <= x.ts) {
        let t = s.subrange(0, s.len() - 1);
        placing_keeps_order(t, x);
        let p = placed(t, x);
        assert(placed(s, x) == p.push(s[s.len() - 1]));
        assert forall|i: int| 0 <= i < p.len() implies (#[trigger] p[i]).ts <= s[s.len() - 1].ts by {
            assert(p[i].ts <= p[p.len() - 1].ts);
        }
    }
}

/// Snapshots are ordered by time, whatever the order of their records.
pub proof fn snapshots_are_sorted(records: Seq<JsonV>, at: int)
    ensures
        forall|i: int, j: int|
            0 <= i <= j < sorted_snapshots(records, at).len() ==> (#[trigger] sorted_snapshots(records, at)[i]).ts
                <= (#[trigger] sorted_snapshots(records, at)[j]).ts,
    decreases records.len(),
{
    if records.len() > 0 {
        let front = records.subrange(0, records.len() - 1);
        snapshots_are_sorted(front, at);
        match credit_usage::snapshot_in(records[records.len() - 1]) {
            Some(s) => {
                placing_keeps_order(sorted_snapshots(front, at), s);
            },
            None => {},
        }
    }
}

/// The account's last snapshot before place `k`.
pub open spec fn before(s: Seq<SnapshotV>, id: Seq<char>, k: int) -> Option<int>
    decreases k,
{
    if k <= 0 || k > s.len() {
        None
    } else if s[k - 1].account == id {
        Some(k - 1)
    } else {
        before(s, id, k - 1)
    }
}

fn last_before(list: &[Snapshot], id: &str, k: usize) -> (r: Option<usize>)
    requires
        k <= list@.len(),
    ensures
        match r {
            Some(i) => i < k && before(snapshots_view(list@), id@, k as int) == Some(i as int),
            None => before(snapshots_view(list@), id@, k as int) is None,
        },
{
    let ghost s = snapshots_view(list@);
    let mut i: usize = k;
    while i > 0
        invariant
            i <= k <= list@.len(),
            s == snapshots_view(list@),
            before(s, id@, k as int) == before(s, id@, i as int),
        decreases i,
    {
        if same(list[i - 1].account_id.as_str(), id) {
            return Some(i - 1);
        }
        i -= 1;
    }
    None
}

/// How far the balance at place `k` lies below the account's balance before it;
/// null where there is none before it.
pub open spec fn fall(s: Seq<SnapshotV>, k: int) -> JsonV {
    match before(s, s[k].account, k) {
        Some(p) => numbers::minus(s[p].remaining, s[k].remaining),
        None => JsonV::Null,
    }
}

/// For every snapshot within the retention time, by time: how far its balance
/// lies below the account's balance before it, null where there is none. The
/// statistics count those falls that are above zero by more than rounding.
pub fn balance_falls(records: &[Json], at_ms: i64) -> (r: Vec<Json>)
    ensures
        ({
            let s = sorted_snapshots(json::list_view(records@), at_ms as int);
            json::list_view(r@) == Seq::new(s.len(), |k: int| fall(s, k))
        }),
{
    let list: Vec<Snapshot> = parse_snapshots(records, at_ms);
    let ghost s = snapshots_view(list@);
    let mut falls: Vec<Json> = Vec::new();
    let mut k: usize = 0;
    while k < list.len()
        invariant
            k <= list@.len(),
            s == snapshots_view(list@),
            falls@.len() == k,
            forall|j: int| 0 <= j < k ==> (#[trigger] falls@[j])@ == fall(s, j),
        decreases list@.len() - k,
    {
        let f: Json = match last_before(list.as_slice(), list[k].account_id.as_str(), k) {
            Some(p) => numbers::difference(list[p].remaining.clone(), list[k].remaining.clone()),
            None => Json::Null,
        };
        falls.push(f);
        k += 1;
    }
    assert(json::list_view(falls@) =~= Seq::new(s.len(), |k: int| fall(s, k)));
    falls
}

/// Something that was used: when, on which day, whose and how much. Its owner is
/// an account, or a model.
pub struct UsageEvent {
    pub ts: i64,
    pub day: i32,
    pub owner: String,
    pub variant: WbVariant,
    pub amount: Json,
}

/// Something that was used.
pub struct UsageV {
    pub ts: int,
    pub day: i32,
    pub owner: Seq<char>,
    pub variant: WbVariant,
    pub amount: JsonV,
}

impl UsageEvent {
    pub open spec fn view(&self) -> UsageV {
        UsageV {
            ts: self.ts as int,
            day: self.day,
            owner: self.owner@,
            variant: self.variant,
            amount: self.amount@,
        }
    }
}

/// The falls of a list.
pub open spec fn usage_view(s: Seq<UsageEvent>) -> Seq<UsageV> {
    Seq::new(s.len(), |i: int| s[i]@)
}

/// The fall at place `k`, where it counts.
pub open spec fn usage_at(s: Seq<SnapshotV>, fell: Seq<bool>, days: Map<int, i32>, k: int) -> Option<UsageV> {
    match (before(s, s[k].account, k), clock::day_at(days, s[k].ts)) {
        (Some(p), Some(day)) => if k < fell.len() && fell[k] {
            Some(
                UsageV {
                    ts: s[k].ts,
                    day,
                    owner: s[k].account,
                    variant: s[k].variant,
                    amount: numbers::minus(s[p].remaining, s[k].remaining),
                },
            )
        } else {
            None
        },
        _ => None,
    }
}

/// The falls that count among the first `n` snapshots, on the day of the later balance.
pub open spec fn usages_of(s: Seq<SnapshotV>, fell: Seq<bool>, days: Map<int, i32>, n: int) -> Seq<UsageV>
    decreases n,
{
    if n <= 0 {
        Seq::empty()
    } else {
        let rest = usages_of(s, fell, days, n - 1);
        match usage_at(s, fell, days, n - 1) {
            Some(d) => rest.push(d),
            None => rest,
        }
    }
}

fn find_usages(list: &[Snapshot], fell: &[bool], days: &LocalDays) -> (r: Vec<UsageEvent>)
    ensures
        usage_view(r@) == usages_of(snapshots_view(list@), fell@, days@, list@.len() as int),
{
    let ghost s = snapshots_view(list@);
    let mut usages: Vec<UsageEvent> = Vec::new();
    let mut k: usize = 0;
    assert(usage_view(usages@) =~= usages_of(s, fell@, days@, 0));
    while k < list.len()
        invariant
            k <= list@.len(),
            s == snapshots_view(list@),
            usage_view(usages@) == usages_of(s, fell@, days@, k as int),
        decreases list@.len() - k,
    {
        let ghost held = usages@;
        if k < fell.len() && fell[k] {
            match (last_before(list, list[k].account_id.as_str(), k), days.get(list[k].ts)) {
                (Some(p), Some(day)) => {
                    let d: UsageEvent = UsageEvent {
                        ts: list[k].ts,
                        day,
                        owner: list[k].account_id.clone(),
                        variant: list[k].variant,
                        amount: numbers::difference(list[p].remaining.clone(), list[k].remaining.clone()),
                    };
                    usages.push(d);
                    assert(usage_view(usages@) =~= usage_view(held).push(d@));
                },
                _ => {},
            }
        }
        k += 1;
    }
    usages
}

/// A check-in of the log.
pub struct CheckinEvent {
    pub ts: i64,
    pub day: i32,
    pub account_id: Option<String>,
    pub account_name: String,
    pub result: String,
    pub error: Option<String>,
}

/// A check-in of the log.
pub struct CheckinV {
    pub ts: int,
    pub day: i32,
    pub account: Option<Seq<char>>,
    pub name: Seq<char>,
    pub result: Seq<char>,
    pub error: Option<Seq<char>>,
}

impl CheckinEvent {
    pub open spec fn view(&self) -> CheckinV {
        CheckinV {
            ts: self.ts as int,
            day: self.day,
            account: json::opt_string(self.account_id),
            name: self.account_name@,
            result: self.result@,
            error: json::opt_string(self.error),
        }
    }
}

/// The check-ins of a list.
pub open spec fn checkins_view(s: Seq<CheckinEvent>) -> Seq<CheckinV> {
    Seq::new(s.len(), |i: int| s[i]@)
}

/// The time of a log entry.
pub open spec fn entry_time(v: JsonV) -> Option<int> {
    match v.get_i64("ts"@) {
        Some(t) => Some(t),
        None => config::time_of(v.get("ts"@)),
    }
}

/// The time of a log entry.
pub fn time_of_entry(v: &Json) -> (r: Option<i64>)
    ensures
        json::opt_int(r) == entry_time(v@),
{
    match v.get_i64("ts") {
        Some(t) => Some(t),
        None => config::norm_ts(v.get("ts")),
    }
}

/// The check-in that a log entry records; none where it has no time or no local day.
pub open spec fn checkin_in(v: JsonV, days: Map<int, i32>) -> Option<CheckinV> {
    match entry_time(v) {
        Some(ts) => match clock::day_at(days, ts) {
            Some(day) => Some(
                CheckinV {
                    ts,
                    day,
                    account: account::str_of(v, "accountId"@),
                    name: credit_usage::or_unknown(account::str_of(v, "email"@)),
                    result: match account::str_of(v, "result"@) {
                        Some(r) => r,
                        None => "error"@,
                    },
                    error: account::str_of(v, "error"@),
                },
            ),
            None => None,
        },
        None => None,
    }
}

/// The check-in that a log entry records.
pub fn parse_checkin_event(v: &Json, days: &LocalDays) -> (r: Option<CheckinEvent>)
    ensures
        match r {
            Some(e) => checkin_in(v@, days@) == Some(e@),
            None => checkin_in(v@, days@) is None,
        },
{
    match time_of_entry(v) {
        Some(ts) => match days.get(ts) {
            Some(day) => {
                let account_name: String = match account::get_str(v, "email") {
                    Some(s) => s,
                    None => "unknown".to_owned(),
                };
                let result: String = match account::get_str(v, "result") {
                    Some(s) => s,
                    None => "error".to_owned(),
                };
                Some(
                    CheckinEvent {
                        ts,
                        day,
                        account_id: account::get_str(v, "accountId"),
                        account_name,
                        result,
                        error: account::get_str(v, "error"),
                    },
                )
            },
            None => None,
        },
        None => None,
    }
}

/// For how long the statistics look at check-ins, in milliseconds.
pub const CHECKIN_KEEP_MS: i64 = 2_592_000_000;

/// The check-ins of the log within their time.
pub open spec fn checkins_of(log: Seq<JsonV>, days: Map<int, i32>, at: int) -> Seq<CheckinV>
    decreases log.len(),
{
    if log.len() == 0 {
        Seq::empty()
    } else {
        let rest = checkins_of(log.subrange(0, log.len() - 1), days, at);
        match checkin_in(log[log.len() - 1], days) {
            Some(c) => if clock::clamped(at - CHECKIN_KEEP_MS) <= c.ts <= at {
                rest.push(c)
            } else {
                rest
            },
            None => rest,
        }
    }
}

fn find_checkins(log: &[Json], days: &LocalDays, at_ms: i64) -> (r: Vec<CheckinEvent>)
    ensures
        checkins_view(r@) == checkins_of(json::list_view(log@), days@, at_ms as int),
{
    let ghost all = json::list_view(log@);
    let cutoff: i64 = clock::minus(at_ms, CHECKIN_KEEP_MS);
    let mut list: Vec<CheckinEvent> = Vec::new();
    let mut i: usize = 0;
    assert(checkins_view(list@) =~= checkins_of(all.subrange(0, 0), days@, at_ms as int));
    while i < log.len()
        invariant
            i <= log@.len(),
            all == json::list_view(log@),
            cutoff == clock::clamped(at_ms - CHECKIN_KEEP_MS),
            checkins_view(list@) == checkins_of(all.subrange(0, i as int), days@, at_ms as int),
        decreases log@.len() - i,
    {
        assert(all.subrange(0, i + 1).subrange(0, i as int) =~= all.subrange(0, i as int));
        assert(all[i as int] == log@[i as int]@);
        match parse_checkin_event(&log[i], days) {
            Some(c) => {
                if cutoff <= c.ts && c.ts <= at_ms {
                    let ghost held = list@;
                    list.push(c);
                    assert(checkins_view(list@) =~= checkins_view(held).push(c@));
                }
            },
            None => {},
        }
        i += 1;
    }
    assert(all.subrange(0, all.len() as int) =~= all);
    list
}

/// An account of the statistics.
pub struct Row {
    pub id: String,
    pub name: String,
    pub variant: WbVariant,
    pub current: bool,
}

/// An account of the statistics.
pub struct RowV {
    pub id: Seq<char>,
    pub name: Seq<char>,
    pub variant: WbVariant,
    pub current: bool,
}

impl Row {
    pub open spec fn view(&self) -> RowV {
        RowV { id: self.id@, name: self.name@, variant: self.variant, current: self.current }
    }
}

/// The accounts of a list.
pub open spec fn rows_view(s: Seq<Row>) -> Seq<RowV> {
    Seq::new(s.len(), |i: int| s[i]@)
}

/// The place of an account from `i` on.
pub open spec fn row_from(rows: Seq<RowV>, id: Seq<char>, i: int) -> Option<int>
    decreases rows.len() - i,
{
    if i < 0 || i >= rows.len() {
        None
    } else if rows[i].id == id {
        Some(i)
    } else {
        row_from(rows, id, i + 1)
    }
}

fn find_row(rows: &[Row], id: &str) -> (r: Option<usize>)
    ensures
        match r {
            Some(i) => i < rows@.len() && row_from(rows_view(rows@), id@, 0) == Some(i as int),
            None => row_from(rows_view(rows@), id@, 0) is None,
        },
{
    let ghost all = rows_view(rows@);
    let mut i: usize = 0;
    while i < rows.len()
        invariant
            i <= rows@.len(),
            all == rows_view(rows@),
            row_from(all, id@, 0) == row_from(all, id@, i as int),
        decreases rows@.len() - i,
    {
        if same(rows[i].id.as_str(), id) {
            return Some(i);
        }
        i += 1;
    }
    None
}

/// The accounts with one more mention of one: a new account is added; a known one
/// gets a name where it had none, and the international edition where that is said.
pub open spec fn mentioned(rows: Seq<RowV>, id: Seq<char>, name: Seq<char>, v: WbVariant, current: bool) -> Seq<RowV> {
    match row_from(rows, id, 0) {
        Some(i) => rows.update(
            i,
            RowV {
                name: if rows[i].name == "unknown"@ {
                    name
                } else {
                    rows[i].name
                },
                variant: if v == WbVariant::Ai {
                    v
                } else {
                    rows[i].variant
                },
                ..rows[i]
            },
        ),
        None => rows.push(RowV { id, name, variant: v, current }),
    }
}

fn mention(rows: &mut Vec<Row>, id: &str, name: &str, v: WbVariant, current: bool)
    ensures
        rows_view(final(rows)@) == mentioned(rows_view(old(rows)@), id@, name@, v, current),
{
    let ghost held = rows@;
    match find_row(rows.as_slice(), id) {
        Some(i) => {
            let name: String = if same(rows[i].name.as_str(), "unknown") {
                name.to_owned()
            } else {
                rows[i].name.clone()
            };
            let variant: WbVariant = if v == WbVariant::Ai {
                v
            } else {
                rows[i].variant
            };
            let row: Row = Row { id: rows[i].id.clone(), name, variant, current: rows[i].current };
            rows.set(i, row);
            assert(rows_view(rows@) =~= rows_view(held).update(i as int, row@));
        },
        None => {
            let row: Row = Row { id: id.to_owned(), name: name.to_owned(), variant: v, current };
            rows.push(row);
            assert(rows_view(rows@) =~= rows_view(held).push(row@));
        },
    }
}

/// The stored accounts, which are the current ones.
pub open spec fn current_rows(accounts: Seq<JsonV>) -> Seq<RowV>
    decreases accounts.len(),
{
    if accounts.len() == 0 {
        Seq::empty()
    } else {
        let rest = current_rows(accounts.subrange(0, accounts.len() - 1));
        let a = accounts[accounts.len() - 1];
        match account::str_of(a, "id"@) {
            Some(id) => mentioned(rest, id, account::display_name(a), crate::variant::variant_in(a), true),
            None => rest,
        }
    }
}

/// The accounts with those that the first `n` snapshots mention.
pub open spec fn with_snapshots(rows: Seq<RowV>, s: Seq<SnapshotV>, n: int) -> Seq<RowV>
    decreases n,
{
    if n <= 0 || n > s.len() {
        rows
    } else {
        mentioned(with_snapshots(rows, s, n - 1), s[n - 1].account, s[n - 1].name, s[n - 1].variant, false)
    }
}

/// The edition of an account among those listed; an unlisted one is domestic.
pub open spec fn edition_in(rows: Seq<RowV>, id: Seq<char>) -> WbVariant {
    match row_from(rows, id, 0) {
        Some(i) => rows[i].variant,
        None => WbVariant::Cn,
    }
}

/// The accounts with those that the first `n` check-ins mention.
pub open spec fn with_checkins(rows: Seq<RowV>, c: Seq<CheckinV>, n: int) -> Seq<RowV>
    decreases n,
{
    if n <= 0 || n > c.len() {
        rows
    } else {
        let rest = with_checkins(rows, c, n - 1);
        match c[n - 1].account {
            Some(id) => mentioned(rest, id, c[n - 1].name, edition_in(rest, id), false),
            None => rest,
        }
    }
}

/// All accounts of the statistics: the stored ones, then those that only the
/// snapshots mention, then those that only the check-ins mention.
pub open spec fn roster(accounts: Seq<JsonV>, s: Seq<SnapshotV>, c: Seq<CheckinV>) -> Seq<RowV> {
    with_checkins(with_snapshots(current_rows(accounts), s, s.len() as int), c, c.len() as int)
}

fn edition_of(rows: &[Row], id: &str) -> (v: WbVariant)
    ensures
        v == edition_in(rows_view(rows@), id@),
{
    match find_row(rows, id) {
        Some(i) => rows[i].variant,
        None => WbVariant::Cn,
    }
}

fn list_accounts(accounts: &[Json], snapshots: &[Snapshot], checkins: &[CheckinEvent]) -> (rows: Vec<Row>)
    ensures
        rows_view(rows@) == roster(
            json::list_view(accounts@),
            snapshots_view(snapshots@),
            checkins_view(checkins@),
        ),
{
    let ghost all = json::list_view(accounts@);
    let mut rows: Vec<Row> = Vec::new();
    let mut i: usize = 0;
    assert(rows_view(rows@) =~= current_rows(all.subrange(0, 0)));
    while i < accounts.len()
        invariant
            i <= accounts@.len(),
            all == json::list_view(accounts@),
            rows_view(rows@) == current_rows(all.subrange(0, i as int)),
        decreases accounts@.len() - i,
    {
        assert(all.subrange(0, i + 1).subrange(0, i as int) =~= all.subrange(0, i as int));
        assert(all[i as int] == accounts@[i as int]@);
        match account::get_str(&accounts[i], "id") {
            Some(id) => {
                let name: String = account::account_display_name(&accounts[i]);
                let v: WbVariant = account::variant_of(&accounts[i]);
                mention(&mut rows, id.as_str(), name.as_str(), v, true);
            },
            None => {},
        }
        i += 1;
    }
    assert(all.subrange(0, all.len() as int) =~= all);
    let ghost first = rows_view(rows@);
    let ghost s = snapshots_view(snapshots@);
    let mut k: usize = 0;
    while k < snapshots.len()
        invariant
            k <= snapshots@.len(),
            s == snapshots_view(snapshots@),
            rows_view(rows@) == with_snapshots(first, s, k as int),
        decreases snapshots@.len() - k,
    {
        let x: &Snapshot = &snapshots[k];
        mention(&mut rows, x.account_id.as_str(), x.account_name.as_str(), x.variant, false);
        k += 1;
    }
    let ghost second = rows_view(rows@);
    let ghost c = checkins_view(checkins@);
    let mut j: usize = 0;
    while j < checkins.len()
        invariant
            j <= checkins@.len(),
            c == checkins_view(checkins@),
            rows_view(rows@) == with_checkins(second, c, j as int),
        decreases checkins@.len() - j,
    {
        let e: &CheckinEvent = &checkins[j];
        match &e.account_id {
            Some(id) => {
                let v: WbVariant = edition_of(rows.as_slice(), id.as_str());
                mention(&mut rows, id.as_str(), e.account_name.as_str(), v, false);
            },
            None => {},
        }
        j += 1;
    }
    rows
}

/// What one owner used.
pub open spec fn of_account(u: Seq<UsageV>, id: Seq<char>) -> Seq<UsageV>
    decreases u.len(),
{
    if u.len() == 0 {
        Seq::empty()
    } else {
        let rest = of_account(u.subrange(0, u.len() - 1), id);
        if u[u.len() - 1].owner == id {
            rest.push(u[u.len() - 1])
        } else {
            rest
        }
    }
}

/// The falls of each account.
pub open spec fn by_account(rows: Seq<RowV>, u: Seq<UsageV>) -> Seq<Seq<UsageV>> {
    Seq::new(rows.len(), |i: int| of_account(u, rows[i].id))
}

/// The lists of a list of lists.
pub open spec fn groups_view(g: Seq<Vec<UsageEvent>>) -> Seq<Seq<UsageV>> {
    Seq::new(g.len(), |i: int| usage_view(g[i]@))
}

fn copy_usage(u: &UsageEvent) -> (r: UsageEvent)
    ensures
        r@ == u@,
{
    UsageEvent {
        ts: u.ts,
        day: u.day,
        owner: u.owner.clone(),
        variant: u.variant,
        amount: u.amount.clone(),
    }
}

/// What one owner used.
pub fn account_usages(usages: &[UsageEvent], id: &str) -> (r: Vec<UsageEvent>)
    ensures
        usage_view(r@) == of_account(usage_view(usages@), id@),
{
    let ghost all = usage_view(usages@);
    let mut list: Vec<UsageEvent> = Vec::new();
    let mut i: usize = 0;
    assert(usage_view(list@) =~= of_account(all.subrange(0, 0), id@));
    while i < usages.len()
        invariant
            i <= usages@.len(),
            all == usage_view(usages@),
            usage_view(list@) == of_account(all.subrange(0, i as int), id@),
        decreases usages@.len() - i,
    {
        assert(all.subrange(0, i + 1).subrange(0, i as int) =~= all.subrange(0, i as int));
        if same(usages[i].owner.as_str(), id) {
            let ghost held = list@;
            list.push(copy_usage(&usages[i]));
            assert(usage_view(list@) =~= usage_view(held).push(all[i as int]));
        }
        i += 1;
    }
    assert(all.subrange(0, all.len() as int) =~= all);
    list
}

fn group_usages(rows: &[Row], usages: &[UsageEvent]) -> (r: Vec<Vec<UsageEvent>>)
    ensures
        groups_view(r@) == by_account(rows_view(rows@), usage_view(usages@)),
{
    let ghost all = usage_view(usages@);
    let mut groups: Vec<Vec<UsageEvent>> = Vec::new();
    let mut i: usize = 0;
    while i < rows.len()
        invariant
            i <= rows@.len(),
            all == usage_view(usages@),
            groups@.len() == i,
            forall|j: int| 0 <= j < i ==> usage_view((#[trigger] groups@[j])@) == of_account(all, rows@[j].id@),
        decreases rows@.len() - i,
    {
        groups.push(account_usages(usages, rows[i].id.as_str()));
        i += 1;
    }
    assert(groups_view(groups@) =~= by_account(rows_view(rows@), all));
    groups
}

/// The spans that usage is summed over.
#[derive(Debug, Clone, Copy, PartialEq, Eq, Structural)]
pub enum Window {
    /// This day.
    Today,
    /// The seven days that end with this one.
    Week,
    /// This calendar month.
    Month,
}

/// Whether a day lies in a span.
pub open spec fn in_window(w: Window, day: i32, today: i32) -> bool {
    match w {
        Window::Today => day == today,
        Window::Week => 0 <= today - day < 7,
        Window::Month => clock::month_of_day(day) == clock::month_of_day(today),
    }
}

/// Whether a day lies in a span.
pub fn usage_in_window(w: Window, day: i32, today: i32) -> (b: bool)
    requires
        clock::FIRST_DAY <= day <= clock::LAST_DAY,
        clock::FIRST_DAY <= today <= clock::LAST_DAY,
    ensures
        b == in_window(w, day, today),
{
    match w {
        Window::Today => day == today,
        Window::Week => 0 <= today - day && today - day < 7,
        Window::Month => {
            let a: (i32, u32) = clock::day_month(day);
            let b: (i32, u32) = clock::day_month(today);
            a.0 == b.0 && a.1 == b.1
        },
    }
}

/// The amounts within a span.
pub open spec fn amounts_in(u: Seq<UsageV>, w: Window, today: i32) -> Seq<JsonV>
    decreases u.len(),
{
    if u.len() == 0 {
        Seq::empty()
    } else {
        let rest = amounts_in(u.subrange(0, u.len() - 1), w, today);
        if in_window(w, u[u.len() - 1].day, today) {
            rest.push(u[u.len() - 1].amount)
        } else {
            rest
        }
    }
}

/// What was used within a span.
pub open spec fn used_in(u: Seq<UsageV>, w: Window, today: i32) -> JsonV {
    numbers::sum(amounts_in(u, w, today))
}

/// Every fall lies on a day of the calendar.
pub open spec fn on_days(u: Seq<UsageV>) -> bool {
    forall|i: int| 0 <= i < u.len() ==> clock::FIRST_DAY <= (#[trigger] u[i]).day <= clock::LAST_DAY
}

proof fn usages_on_days(s: Seq<SnapshotV>, fell: Seq<bool>, days: Map<int, i32>, n: int)
    requires
        clock::days_valid(days),
    ensures
        on_days(usages_of(s, fell, days, n)),
    decreases n,
{
    if n > 0 {
        usages_on_days(s, fell, days, n - 1);
    }
}

proof fn group_on_days(u: Seq<UsageV>, id: Seq<char>)
    requires
        on_days(u),
    ensures
        on_days(of_account(u, id)),
    decreases u.len(),
{
    if u.len() > 0 {
        let t = u.subrange(0, u.len() - 1);
        assert(on_days(t)) by {
            assert forall|i: int| 0 <= i < t.len() implies clock::FIRST_DAY <= (#[trigger] t[i]).day
                <= clock::LAST_DAY by {
                assert(t[i] == u[i]);
            }
        }
        group_on_days(t, id);
    }
}

/// What was used within a span.
pub fn sum_window(usages: &[UsageEvent], w: Window, today: i32) -> (r: Json)
    requires
        on_days(usage_view(usages@)),
        clock::FIRST_DAY <= today <= clock::LAST_DAY,
    ensures
        r@ == used_in(usage_view(usages@), w, today),
{
    let ghost all = usage_view(usages@);
    let mut list: Vec<Json> = Vec::new();
    let mut i: usize = 0;
    assert(json::list_view(list@) =~= amounts_in(all.subrange(0, 0), w, today));
    while i < usages.len()
        invariant
            i <= usages@.len(),
            all == usage_view(usages@),
            on_days(all),
            clock::FIRST_DAY <= today <= clock::LAST_DAY,
            json::list_view(list@) == amounts_in(all.subrange(0, i as int), w, today),
        decreases usages@.len() - i,
    {
        assert(all.subrange(0, i + 1).subrange(0, i as int) =~= all.subrange(0, i as int));
        assert(all[i as int] == usages@[i as int]@);
        if usage_in_window(w, usages[i].day, today) {
            let ghost held = list@;
            list.push(usages[i].amount.clone());
            assert(json::list_view(list@) =~= json::list_view(held).push(all[i as int].amount));
        }
        i += 1;
    }
    assert(all.subrange(0, all.len() as int) =~= all);
    numbers::total(list)
}

/// The amounts of one day.
pub open spec fn amounts_on(u: Seq<UsageV>, day: i32) -> Seq<JsonV>
    decreases u.len(),
{
    if u.len() == 0 {
        Seq::empty()
    } else {
        let rest = amounts_on(u.subrange(0, u.len() - 1), day);
        if u[u.len() - 1].day == day {
            rest.push(u[u.len() - 1].amount)
        } else {
            rest
        }
    }
}

/// What was used on a day.
pub fn sum_day(usages: &[UsageEvent], day: i32) -> (r: Json)
    ensures
        r@ == numbers::sum(amounts_on(usage_view(usages@), day)),
{
    let ghost all = usage_view(usages@);
    let mut list: Vec<Json> = Vec::new();
    let mut i: usize = 0;
    assert(json::list_view(list@) =~= amounts_on(all.subrange(0, 0), day));
    while i < usages.len()
        invariant
            i <= usages@.len(),
            all == usage_view(usages@),
            json::list_view(list@) == amounts_on(all.subrange(0, i as int), day),
        decreases usages@.len() - i,
    {
        assert(all.subrange(0, i + 1).subrange(0, i as int) =~= all.subrange(0, i as int));
        assert(all[i as int] == usages@[i as int]@);
        if usages[i].day == day {
            let ghost held = list@;
            list.push(usages[i].amount.clone());
            assert(json::list_view(list@) =~= json::list_view(held).push(all[i as int].amount));
        }
        i += 1;
    }
    assert(all.subrange(0, all.len() as int) =~= all);
    numbers::total(list)
}

/// What was used on a day by the accounts together.
pub open spec fn used_on(groups: Seq<Seq<UsageV>>, day: i32) -> JsonV {
    numbers::sum(Seq::new(groups.len(), |i: int| numbers::sum(amounts_on(groups[i], day))))
}

/// What was used on a day by all together.
pub fn sum_groups_day(groups: &[Vec<UsageEvent>], day: i32) -> (r: Json)
    ensures
        r@ == used_on(groups_view(groups@), day),
{
    let ghost all = groups_view(groups@);
    let mut list: Vec<Json> = Vec::new();
    let mut i: usize = 0;
    while i < groups.len()
        invariant
            i <= groups@.len(),
            all == groups_view(groups@),
            list@.len() == i,
            forall|j: int| 0 <= j < i ==> (#[trigger] list@[j])@ == numbers::sum(amounts_on(all[j], day)),
        decreases groups@.len() - i,
    {
        list.push(sum_day(groups[i].as_slice(), day));
        i += 1;
    }
    assert(json::list_view(list@) =~= Seq::new(all.len(), |i: int| numbers::sum(amounts_on(all[i], day))));
    numbers::total(list)
}

/// A day of a series.
pub open spec fn point(day: i32, usage: JsonV) -> JsonV {
    JsonV::empty().put("date"@, JsonV::Str(clock::text_of_day(day))).put("usage"@, usage)
}

fn day_point(day: i32, usage: Json) -> (r: Json)
    requires
        clock::FIRST_DAY <= day <= clock::LAST_DAY,
    ensures
        r@ == point(day, usage@),
{
    let date: String = clock::day_text(day);
    Json::object().put("date", Json::text(date.as_str())).put("usage", usage)
}

/// How many days a series has, from its first day to this one.
pub open spec fn span(start: Option<i32>, today: i32) -> nat {
    match start {
        Some(d) => if d <= today {
            (today - d + 1) as nat
        } else {
            0
        },
        None => 0,
    }
}

/// The days of one account, each with what was used on it.
pub open spec fn series(u: Seq<UsageV>, start: Option<i32>, today: i32) -> Seq<JsonV> {
    Seq::new(
        span(start, today),
        |i: int| point((start->0 + i) as i32, numbers::sum(amounts_on(u, (start->0 + i) as i32))),
    )
}

/// The days of all accounts, each with what was used on it.
pub open spec fn total_series(groups: Seq<Seq<UsageV>>, start: Option<i32>, today: i32) -> Seq<JsonV> {
    Seq::new(
        span(start, today),
        |i: int| point((start->0 + i) as i32, used_on(groups, (start->0 + i) as i32)),
    )
}

/// The days of one account, each with what was used on it; a day without usage
/// has zero. Nothing where there is no first day.
pub fn local_daily_series(usages: &[UsageEvent], start: Option<i32>, today: i32) -> (r: Vec<Json>)
    requires
        start matches Some(d) ==> clock::FIRST_DAY <= d,
        today <= clock::LAST_DAY,
    ensures
        json::list_view(r@) == series(usage_view(usages@), start, today),
{
    let mut points: Vec<Json> = Vec::new();
    match start {
        Some(first) => {
            let mut day: i32 = first;
            while day <= today
                invariant
                    clock::FIRST_DAY <= first <= day,
                    start == Some(first),
                    day <= today + 1 || points@.len() == 0,
                    today <= clock::LAST_DAY,
                    points@.len() == day - first,
                    forall|j: int|
                        0 <= j < points@.len() ==> (#[trigger] points@[j])@ == point(
                            (first + j) as i32,
                            numbers::sum(amounts_on(usage_view(usages@), (first + j) as i32)),
                        ),
                decreases today - day + 1,
            {
                points.push(day_point(day, sum_day(usages, day)));
                day += 1;
            }
            assert(json::list_view(points@) =~= series(usage_view(usages@), start, today));
        },
        None => {
            assert(json::list_view(points@) =~= series(usage_view(usages@), start, today));
        },
    }
    points
}

fn total_daily_series(groups: &[Vec<UsageEvent>], start: Option<i32>, today: i32) -> (r: Vec<Json>)
    requires
        start matches Some(d) ==> clock::FIRST_DAY <= d,
        today <= clock::LAST_DAY,
    ensures
        json::list_view(r@) == total_series(groups_view(groups@), start, today),
{
    let mut points: Vec<Json> = Vec::new();
    match start {
        Some(first) => {
            let mut day: i32 = first;
            while day <= today
                invariant
                    clock::FIRST_DAY <= first <= day,
                    start == Some(first),
                    day <= today + 1 || points@.len() == 0,
                    today <= clock::LAST_DAY,
                    points@.len() == day - first,
                    forall|j: int|
                        0 <= j < points@.len() ==> (#[trigger] points@[j])@ == point(
                            (first + j) as i32,
                            used_on(groups_view(groups@), (first + j) as i32),
                        ),
                decreases today - day + 1,
            {
                points.push(day_point(day, sum_groups_day(groups, day)));
                day += 1;
            }
            assert(json::list_view(points@) =~= total_series(groups_view(groups@), start, today));
        },
        None => {
            assert(json::list_view(points@) =~= total_series(groups_view(groups@), start, today));
        },
    }
    points
}

/// Who a check-in belongs to: its account, else its name where it has one.
pub open spec fn checkin_owner(c: CheckinV) -> Option<Seq<char>> {
    match c.account {
        Some(id) => Some("account:"@ + id),
        None => if c.name != "unknown"@ {
            Some("legacy:"@ + c.name)
        } else {
            None
        },
    }
}

/// Who a check-in belongs to.
pub fn checkin_identity(c: &CheckinEvent) -> (r: Option<String>)
    ensures
        json::opt_string(r) == checkin_owner(c@),
{
    match &c.account_id {
        Some(id) => Some(text::concat("account:", id.as_str())),
        None => {
            if same(c.account_name.as_str(), "unknown") {
                None
            } else {
                Some(text::concat("legacy:", c.account_name.as_str()))
            }
        },
    }
}

/// A check-in that went well, now or before.
pub open spec fn went_well(result: Seq<char>) -> bool {
    result == "success"@ || result == "already"@
}

fn is_well(result: &str) -> (b: bool)
    ensures
        b == went_well(result@),
{
    same(result, "success") || same(result, "already")
}

/// Check-in `j` settles the question before check-in `i`: it is of the same
/// owner and day, and later, or listed later at the same time.
pub open spec fn overrules(c: Seq<CheckinV>, j: int, i: int) -> bool {
    c[j].day == c[i].day && checkin_owner(c[j]) == checkin_owner(c[i]) && (c[j].ts > c[i].ts || (c[j].ts == c[i].ts
        && j > i))
}

/// Check-in `i` decides for its owner on its day.
pub open spec fn decides(c: Seq<CheckinV>, i: int) -> bool {
    checkin_owner(c[i]) is Some && forall|j: int| 0 <= j < c.len() ==> !#[trigger] overrules(c, j, i)
}

/// Among the first `n` check-ins, how many of this day decide for their owner
/// and went well: the number of owners that have checked in.
pub open spec fn owners_in(c: Seq<CheckinV>, today: i32, n: int) -> int
    decreases n,
{
    if n <= 0 {
        0
    } else {
        owners_in(c, today, n - 1) + (if c[n - 1].day == today && decides(c, n - 1) && went_well(c[n - 1].result) {
            1int
        } else {
            0
        })
    }
}

fn string_same(a: &Option<String>, b: &Option<String>) -> (r: bool)
    ensures
        r == (json::opt_string(*a) == json::opt_string(*b)),
{
    match (a, b) {
        (Some(x), Some(y)) => same(x.as_str(), y.as_str()),
        (None, None) => true,
        _ => false,
    }
}

fn is_deciding(list: &[CheckinEvent], i: usize) -> (b: bool)
    requires
        i < list@.len(),
    ensures
        b == decides(checkins_view(list@), i as int),
{
    let ghost c = checkins_view(list@);
    let owner: Option<String> = checkin_identity(&list[i]);
    if owner.is_none() {
        return false;
    }
    let mut j: usize = 0;
    while j < list.len()
        invariant
            j <= list@.len(),
            i < list@.len(),
            c == checkins_view(list@),
            json::opt_string(owner) == checkin_owner(c[i as int]),
            forall|k: int| 0 <= k < j ==> !#[trigger] overrules(c, k, i as int),
        decreases list@.len() - j,
    {
        assert(c[j as int] == list@[j as int]@);
        let later: bool = list[j].ts > list[i].ts || (list[j].ts == list[i].ts && j > i);
        if later && list[j].day == list[i].day && string_same(&checkin_identity(&list[j]), &owner) {
            assert(overrules(c, j as int, i as int));
            return false;
        }
        j += 1;
    }
    true
}

fn count_owners(list: &[CheckinEvent], today: i32) -> (n: usize)
    ensures
        n == owners_in(checkins_view(list@), today, list@.len() as int),
{
    let ghost c = checkins_view(list@);
    let mut n: usize = 0;
    let mut i: usize = 0;
    while i < list.len()
        invariant
            i <= list@.len(),
            c == checkins_view(list@),
            n <= i,
            n == owners_in(c, today, i as int),
        decreases list@.len() - i,
    {
        assert(c[i as int] == list@[i as int]@);
        if list[i].day == today && is_well(list[i].result.as_str()) && is_deciding(list, i) {
            n += 1;
        }
        i += 1;
    }
    n
}

/// How a check-in is counted.
#[derive(Debug, Clone, Copy, PartialEq, Eq, Structural)]
pub enum Outcome {
    Success,
    Already,
    Failed,
}

/// How a check-in is counted.
pub open spec fn outcome_of(result: Seq<char>) -> Outcome {
    if result == "success"@ {
        Outcome::Success
    } else if result == "already"@ {
        Outcome::Already
    } else {
        Outcome::Failed
    }
}

/// How many of the first `n` check-ins are of this day and counted so.
pub open spec fn tally(c: Seq<CheckinV>, today: i32, o: Outcome, n: int) -> int
    decreases n,
{
    if n <= 0 {
        0
    } else {
        tally(c, today, o, n - 1) + (if c[n - 1].day == today && outcome_of(c[n - 1].result) == o {
            1int
        } else {
            0
        })
    }
}

fn count_outcome(list: &[CheckinEvent], today: i32, o: Outcome) -> (n: usize)
    ensures
        n == tally(checkins_view(list@), today, o, list@.len() as int),
{
    let ghost c = checkins_view(list@);
    let mut n: usize = 0;
    let mut i: usize = 0;
    while i < list.len()
        invariant
            i <= list@.len(),
            c == checkins_view(list@),
            n <= i,
            n == tally(c, today, o, i as int),
        decreases list@.len() - i,
    {
        assert(c[i as int] == list@[i as int]@);
        let outcome: Outcome = if same(list[i].result.as_str(), "success") {
            Outcome::Success
        } else if same(list[i].result.as_str(), "already") {
            Outcome::Already
        } else {
            Outcome::Failed
        };
        if list[i].day == today && outcome == o {
            n += 1;
        }
        i += 1;
    }
    n
}

/// The account's newest check-in among the first `n`, of one day where one is
/// asked for; of two of one time the later in the log.
pub open spec fn newest_checkin(c: Seq<CheckinV>, id: Seq<char>, day: Option<i32>, n: int) -> Option<int>
    decreases n,
{
    if n <= 0 {
        None
    } else {
        let rest = newest_checkin(c, id, day, n - 1);
        if c[n - 1].account == Some(id) && (day is None || day->0 == c[n - 1].day) && (rest is None || c[rest->0].ts
            <= c[n - 1].ts) {
            Some(n - 1)
        } else {
            rest
        }
    }
}

fn find_newest(list: &[CheckinEvent], id: &str, day: Option<i32>) -> (r: Option<usize>)
    ensures
        match r {
            Some(i) => i < list@.len() && newest_checkin(checkins_view(list@), id@, day, list@.len() as int) == Some(
                i as int,
            ),
            None => newest_checkin(checkins_view(list@), id@, day, list@.len() as int) is None,
        },
{
    let ghost c = checkins_view(list@);
    let mut best: Option<usize> = None;
    let mut i: usize = 0;
    while i < list.len()
        invariant
            i <= list@.len(),
            c == checkins_view(list@),
            match best {
                Some(b) => b < i && newest_checkin(c, id@, day, i as int) == Some(b as int),
                None => newest_checkin(c, id@, day, i as int) is None,
            },
        decreases list@.len() - i,
    {
        assert(c[i as int] == list@[i as int]@);
        let mine: bool = match &list[i].account_id {
            Some(a) => same(a.as_str(), id),
            None => false,
        };
        let wanted: bool = match day {
            Some(d) => d == list[i].day,
            None => true,
        };
        let newer: bool = match best {
            Some(b) => list[b].ts <= list[i].ts,
            None => true,
        };
        if mine && wanted && newer {
            best = Some(i);
        }
        i += 1;
    }
    best
}

/// Everything that the statistics are drawn from.
pub struct Facts {
    pub snapshots: Seq<SnapshotV>,
    pub checkins: Seq<CheckinV>,
    pub rows: Seq<RowV>,
    pub usages: Seq<UsageV>,
    pub start: Option<i32>,
    pub today: i32,
}

impl Facts {
    /// The account's latest balance.
    pub open spec fn latest(self, id: Seq<char>) -> Option<SnapshotV> {
        match before(self.snapshots, id, self.snapshots.len() as int) {
            Some(i) => Some(self.snapshots[i]),
            None => None,
        }
    }

    /// The account's newest check-in of this day.
    pub open spec fn today_checkin(self, id: Seq<char>) -> Option<CheckinV> {
        match newest_checkin(self.checkins, id, Some(self.today), self.checkins.len() as int) {
            Some(i) => Some(self.checkins[i]),
            None => None,
        }
    }

    /// The account's newest check-in.
    pub open spec fn last_checkin(self, id: Seq<char>) -> Option<CheckinV> {
        match newest_checkin(self.checkins, id, None, self.checkins.len() as int) {
            Some(i) => Some(self.checkins[i]),
            None => None,
        }
    }

    /// What the statistics tell of an account.
    pub open spec fn account_summary(self, row: RowV) -> JsonV {
        let latest = self.latest(row.id);
        let used = of_account(self.usages, row.id);
        let now = self.today_checkin(row.id);
        let last = self.last_checkin(row.id);
        JsonV::empty().put("accountId"@, JsonV::Str(row.id)).put("accountName"@, JsonV::Str(row.name)).put(
            "variant"@,
            JsonV::Str(row.variant.name()),
        ).put("isCurrent"@, JsonV::Bool(row.current)).put(
            "currentRemaining"@,
            match latest {
                Some(s) => if row.current {
                    s.remaining
                } else {
                    JsonV::Null
                },
                None => JsonV::Null,
            },
        ).put(
            "totalCapacity"@,
            match latest {
                Some(s) => if row.current {
                    s.total
                } else {
                    JsonV::Null
                },
                None => JsonV::Null,
            },
        ).put(
            "lastSnapshotAt"@,
            match latest {
                Some(s) => JsonV::Int(s.ts),
                None => JsonV::Null,
            },
        ).put("usageToday"@, used_in(used, Window::Today, self.today)).put(
            "usage7Days"@,
            used_in(used, Window::Week, self.today),
        ).put("usageThisMonth"@, used_in(used, Window::Month, self.today)).put(
            "checkedInToday"@,
            match now {
                Some(c) => JsonV::Bool(went_well(c.result)),
                None => JsonV::Null,
            },
        ).put(
            "checkinStatusToday"@,
            match now {
                Some(c) => JsonV::Str(c.result),
                None => JsonV::Null,
            },
        ).put(
            "lastCheckinAt"@,
            match last {
                Some(c) => JsonV::Int(c.ts),
                None => JsonV::Null,
            },
        ).put(
            "lastCheckinResult"@,
            match last {
                Some(c) => JsonV::Str(c.result),
                None => JsonV::Null,
            },
        ).put("daily"@, JsonV::Arr(series(used, self.start, self.today)))
    }

    /// The name of a listed account.
    pub open spec fn name_in(self, id: Seq<char>) -> Option<Seq<char>> {
        match row_from(self.rows, id, 0) {
            Some(i) => Some(self.rows[i].name),
            None => None,
        }
    }

    /// The event of a fall.
    pub open spec fn usage_event(self, u: UsageV) -> JsonV {
        JsonV::empty().put("kind"@, JsonV::Str("usage"@)).put("ts"@, JsonV::Int(u.ts)).put(
            "date"@,
            JsonV::Str(clock::text_of_day(u.day)),
        ).put("accountId"@, JsonV::Str(u.owner)).put(
            "accountName"@,
            JsonV::Str(credit_usage::or_unknown(self.name_in(u.owner))),
        ).put("variant"@, JsonV::Str(u.variant.name())).put("amount"@, u.amount)
    }

    /// The event of a check-in.
    pub open spec fn checkin_event(self, c: CheckinV) -> JsonV {
        JsonV::empty().put("kind"@, JsonV::Str("checkin"@)).put("ts"@, JsonV::Int(c.ts)).put(
            "date"@,
            JsonV::Str(clock::text_of_day(c.day)),
        ).put("accountId"@, json::text_or_null(c.account)).put(
            "accountName"@,
            JsonV::Str(
                match c.account {
                    Some(id) => match self.name_in(id) {
                        Some(name) => name,
                        None => c.name,
                    },
                    None => c.name,
                },
            ),
        ).put(
            "variant"@,
            JsonV::Str(
                match c.account {
                    Some(id) => edition_in(self.rows, id).name(),
                    None => WbVariant::Cn.name(),
                },
            ),
        ).put("result"@, JsonV::Str(c.result)).put("error"@, json::text_or_null(c.error))
    }

    /// All events: the falls, then the check-ins, each with its time.
    pub open spec fn events(self) -> Seq<(int, JsonV)> {
        Seq::new(self.usages.len(), |i: int| (self.usages[i].ts, self.usage_event(self.usages[i]))) + Seq::new(
            self.checkins.len(),
            |i: int| (self.checkins[i].ts, self.checkin_event(self.checkins[i])),
        )
    }

    /// The amounts of the current accounts' latest balances, by the first `n` accounts.
    pub open spec fn current_amounts(self, remaining: bool, n: int) -> Seq<JsonV>
        decreases n,
    {
        if n <= 0 || n > self.rows.len() {
            Seq::empty()
        } else {
            let rest = self.current_amounts(remaining, n - 1);
            match self.latest(self.rows[n - 1].id) {
                Some(s) => if self.rows[n - 1].current {
                    rest.push(
                        if remaining {
                            s.remaining
                        } else {
                            s.total
                        },
                    )
                } else {
                    rest
                },
                None => rest,
            }
        }
    }

    /// What all accounts used within a span.
    pub open spec fn all_used(self, w: Window) -> JsonV {
        numbers::sum(
            Seq::new(self.rows.len(), |i: int| used_in(of_account(self.usages, self.rows[i].id), w, self.today)),
        )
    }

    /// What the statistics tell of everything together.
    pub open spec fn summary(self) -> JsonV {
        let n = self.checkins.len() as int;
        JsonV::empty().put(
            "currentRemaining"@,
            numbers::sum(self.current_amounts(true, self.rows.len() as int)),
        ).put("currentCapacity"@, numbers::sum(self.current_amounts(false, self.rows.len() as int))).put(
            "usageToday"@,
            self.all_used(Window::Today),
        ).put("usage7Days"@, self.all_used(Window::Week)).put("usageThisMonth"@, self.all_used(Window::Month)).put(
            "todayCheckedInAccounts"@,
            JsonV::Int(owners_in(self.checkins, self.today, n)),
        ).put("todaySuccess"@, JsonV::Int(tally(self.checkins, self.today, Outcome::Success, n))).put(
            "todayAlready"@,
            JsonV::Int(tally(self.checkins, self.today, Outcome::Already, n)),
        ).put("todayFailed"@, JsonV::Int(tally(self.checkins, self.today, Outcome::Failed, n)))
    }
}

/// An event put into a list with the newest first, behind those of its own time.
pub open spec fn ranked_in(s: Seq<(int, JsonV)>, x: (int, JsonV)) -> Seq<(int, JsonV)>
    decreases s.len(),
{
    if s.len() == 0 || s[s.len() - 1].0 >= x.0 {
        s.push(x)
    } else {
        ranked_in(s.subrange(0, s.len() - 1), x).push(s[s.len() - 1])
    }
}

/// The events with the newest first; those of one time in their order.
pub open spec fn ranked(events: Seq<(int, JsonV)>) -> Seq<(int, JsonV)>
    decreases events.len(),
{
    if events.len() == 0 {
        Seq::empty()
    } else {
        ranked_in(ranked(events.subrange(0, events.len() - 1)), events[events.len() - 1])
    }
}

/// The first `n` of a list.
pub open spec fn first_n(s: Seq<(int, JsonV)>, n: int) -> Seq<(int, JsonV)> {
    if s.len() > n {
        s.subrange(0, n)
    } else {
        s
    }
}

/// The values of a list, without their times.
pub open spec fn untimed(s: Seq<(int, JsonV)>) -> Seq<JsonV> {
    Seq::new(s.len(), |i: int| s[i].1)
}

/// The first day of the series: that of the earliest balance, but not before the
/// retention time.
pub open spec fn first_day(s: Seq<SnapshotV>, days: Map<int, i32>, today: i32) -> Option<i32> {
    if s.len() == 0 {
        None
    } else {
        match clock::day_at(days, s[0].ts) {
            Some(d) => Some(
                if d > today - (credit_usage::CREDIT_SNAPSHOT_RETENTION_DAYS - 1) {
                    d
                } else {
                    (today - (credit_usage::CREDIT_SNAPSHOT_RETENTION_DAYS - 1)) as i32
                },
            ),
            None => None,
        }
    }
}

/// What the statistics are drawn from: records, log, accounts, which falls count,
/// and the local days.
pub open spec fn facts_of(
    records: Seq<JsonV>,
    log: Seq<JsonV>,
    accounts: Seq<JsonV>,
    fell: Seq<bool>,
    days: Map<int, i32>,
    today: i32,
    at: int,
) -> Facts {
    let s = sorted_snapshots(records, at);
    let c = checkins_of(log, days, at);
    Facts {
        snapshots: s,
        checkins: c,
        rows: roster(accounts, s, c),
        usages: usages_of(s, fell, days, s.len() as int),
        start: first_day(s, days, today),
        today,
    }
}

/// The statistics.
pub open spec fn statistics_of(f: Facts, at: int) -> JsonV {
    JsonV::empty().put("generatedAt"@, JsonV::Int(at)).put(
        "retentionDays"@,
        JsonV::Int(credit_usage::CREDIT_SNAPSHOT_RETENTION_DAYS as int),
    ).put(
        "coverageStartAt"@,
        if f.snapshots.len() > 0 {
            JsonV::Int(f.snapshots[0].ts)
        } else {
            JsonV::Null
        },
    ).put("summary"@, f.summary()).put(
        "daily"@,
        JsonV::Arr(total_series(by_account(f.rows, f.usages), f.start, f.today)),
    ).put("accounts"@, JsonV::Arr(f.rows.map_values(|r: RowV| f.account_summary(r)))).put(
        "events"@,
        JsonV::Arr(untimed(first_n(ranked(f.events()), credit_usage::CREDIT_STATS_MAX_EVENTS as int))),
    )
}

/// The collected material, in executable form.
struct Material {
    snapshots: Vec<Snapshot>,
    checkins: Vec<CheckinEvent>,
    rows: Vec<Row>,
    usages: Vec<UsageEvent>,
    groups: Vec<Vec<UsageEvent>>,
    start: Option<i32>,
    today: i32,
}

impl Material {
    spec fn view(&self) -> Facts {
        Facts {
            snapshots: snapshots_view(self.snapshots@),
            checkins: checkins_view(self.checkins@),
            rows: rows_view(self.rows@),
            usages: usage_view(self.usages@),
            start: self.start,
            today: self.today,
        }
    }

    spec fn wf(&self) -> bool {
        &&& clock::FIRST_DAY <= self.today <= clock::LAST_DAY
        &&& self.start matches Some(d) ==> clock::FIRST_DAY <= d
        &&& on_days(usage_view(self.usages@))
        &&& groups_view(self.groups@) == by_account(rows_view(self.rows@), usage_view(self.usages@))
        &&& forall|i: int|
            0 <= i < self.checkins@.len() ==> clock::FIRST_DAY <= (#[trigger] self.checkins@[i]).day <= clock::LAST_DAY
    }

    fn summarize(&self, k: usize) -> (r: Json)
        requires
            self.wf(),
            k < self.rows@.len(),
        ensures
            r@ == self@.account_summary(self.rows@[k as int]@),
    {
        let row: &Row = &self.rows[k];
        let ghost u = usage_view(self.usages@);
        assert(groups_view(self.groups@).len() == self.rows@.len());
        assert(groups_view(self.groups@)[k as int] == of_account(u, row.id@));
        let used: &Vec<UsageEvent> = &self.groups[k];
        assert(usage_view(used@) == of_account(u, row.id@));
        proof {
            group_on_days(u, row.id@);
        }
        let latest: Option<usize> = last_before(
            self.snapshots.as_slice(),
            row.id.as_str(),
            self.snapshots.len(),
        );
        let remaining: Json = match latest {
            Some(i) => {
                if row.current {
                    self.snapshots[i].remaining.clone()
                } else {
                    Json::Null
                }
            },
            None => Json::Null,
        };
        let capacity: Json = match latest {
            Some(i) => {
                if row.current {
                    self.snapshots[i].total.clone()
                } else {
                    Json::Null
                }
            },
            None => Json::Null,
        };
        let seen: Json = match latest {
            Some(i) => Json::num(self.snapshots[i].ts),
            None => Json::Null,
        };
        let now: Option<usize> = find_newest(self.checkins.as_slice(), row.id.as_str(), Some(self.today));
        let last: Option<usize> = find_newest(self.checkins.as_slice(), row.id.as_str(), None);
        let checked: Json = match now {
            Some(i) => Json::Bool(is_well(self.checkins[i].result.as_str())),
            None => Json::Null,
        };
        let status: Json = match now {
            Some(i) => Json::text(self.checkins[i].result.as_str()),
            None => Json::Null,
        };
        let last_at: Json = match last {
            Some(i) => Json::num(self.checkins[i].ts),
            None => Json::Null,
        };
        let last_result: Json = match last {
            Some(i) => Json::text(self.checkins[i].result.as_str()),
            None => Json::Null,
        };
        let daily: Vec<Json> = local_daily_series(used.as_slice(), self.start, self.today);
        Json::object().put("accountId", Json::text(row.id.as_str())).put(
            "accountName",
            Json::text(row.name.as_str()),
        ).put("variant", Json::text(row.variant.as_str())).put("isCurrent", Json::Bool(row.current)).put(
            "currentRemaining",
            remaining,
        ).put("totalCapacity", capacity).put("lastSnapshotAt", seen).put(
            "usageToday",
            sum_window(used.as_slice(), Window::Today, self.today),
        ).put("usage7Days", sum_window(used.as_slice(), Window::Week, self.today)).put(
            "usageThisMonth",
            sum_window(used.as_slice(), Window::Month, self.today),
        ).put("checkedInToday", checked).put("checkinStatusToday", status).put("lastCheckinAt", last_at).put(
            "lastCheckinResult",
            last_result,
        ).put("daily", Json::Arr(daily))
    }

    fn name_of(&self, id: &str) -> (r: Option<&str>)
        ensures
            json::opt_text(r) == self@.name_in(id@),
    {
        match find_row(self.rows.as_slice(), id) {
            Some(i) => Some(self.rows[i].name.as_str()),
            None => None,
        }
    }

    fn usage_json(&self, u: &UsageEvent) -> (r: Json)
        requires
            clock::FIRST_DAY <= u.day <= clock::LAST_DAY,
        ensures
            r@ == self@.usage_event(u@),
    {
        let date: String = clock::day_text(u.day);
        let name: &str = match self.name_of(u.owner.as_str()) {
            Some(n) => n,
            None => "unknown",
        };
        Json::object().put("kind", Json::text("usage")).put("ts", Json::num(u.ts)).put(
            "date",
            Json::text(date.as_str()),
        ).put("accountId", Json::text(u.owner.as_str())).put("accountName", Json::text(name)).put(
            "variant",
            Json::text(u.variant.as_str()),
        ).put("amount", u.amount.clone())
    }

    fn checkin_json(&self, c: &CheckinEvent) -> (r: Json)
        requires
            clock::FIRST_DAY <= c.day <= clock::LAST_DAY,
        ensures
            r@ == self@.checkin_event(c@),
    {
        let date: String = clock::day_text(c.day);
        let id: Json = match &c.account_id {
            Some(a) => Json::text(a.as_str()),
            None => Json::Null,
        };
        let name: &str = match &c.account_id {
            Some(a) => match self.name_of(a.as_str()) {
                Some(n) => n,
                None => c.account_name.as_str(),
            },
            None => c.account_name.as_str(),
        };
        let v: WbVariant = match &c.account_id {
            Some(a) => edition_of(self.rows.as_slice(), a.as_str()),
            None => WbVariant::Cn,
        };
        let error: Json = match &c.error {
            Some(e) => Json::text(e.as_str()),
            None => Json::Null,
        };
        Json::object().put("kind", Json::text("checkin")).put("ts", Json::num(c.ts)).put(
            "date",
            Json::text(date.as_str()),
        ).put("accountId", id).put("accountName", Json::text(name)).put("variant", Json::text(v.as_str())).put(
            "result",
            Json::text(c.result.as_str()),
        ).put("error", error)
    }

    fn recent_events(&self) -> (r: Vec<Json>)
        requires
            self.wf(),
        ensures
            json::list_view(r@) == untimed(
                first_n(ranked(self@.events()), credit_usage::CREDIT_STATS_MAX_EVENTS as int),
            ),
    {
        let ghost all = self@.events();
        let mut list: Vec<(i64, Json)> = Vec::new();
        let mut i: usize = 0;
        assert(timed_view(list@) =~= ranked(all.subrange(0, 0)));
        while i < self.usages.len()
            invariant
                i <= self.usages@.len(),
                self.wf(),
                all == self@.events(),
                timed_view(list@) == ranked(all.subrange(0, i as int)),
            decreases self.usages@.len() - i,
        {
            assert(all.subrange(0, i + 1).subrange(0, i as int) =~= all.subrange(0, i as int));
            assert(usage_view(self.usages@)[i as int] == self.usages@[i as int]@);
            let e: (i64, Json) = (self.usages[i].ts, self.usage_json(&self.usages[i]));
            assert(all[i as int] == (e.0 as int, e.1@));
            rank(&mut list, e);
            i += 1;
        }
        let n: usize = self.usages.len();
        let mut j: usize = 0;
        while j < self.checkins.len()
            invariant
                j <= self.checkins@.len(),
                n == self.usages@.len(),
                self.wf(),
                all == self@.events(),
                timed_view(list@) == ranked(all.subrange(0, n + j)),
            decreases self.checkins@.len() - j,
        {
            assert(all.subrange(0, n + j + 1).subrange(0, n + j) =~= all.subrange(0, n + j));
            assert(checkins_view(self.checkins@)[j as int] == self.checkins@[j as int]@);
            let e: (i64, Json) = (self.checkins[j].ts, self.checkin_json(&self.checkins[j]));
            assert(all[n + j] == (e.0 as int, e.1@));
            rank(&mut list, e);
            j += 1;
        }
        assert(all.subrange(0, all.len() as int) =~= all);
        first_values(list.as_slice(), credit_usage::CREDIT_STATS_MAX_EVENTS)
    }

    fn current_sum(&self, remaining: bool) -> (r: Json)
        ensures
            r@ == numbers::sum(self@.current_amounts(remaining, self.rows@.len() as int)),
    {
        let mut list: Vec<Json> = Vec::new();
        let mut i: usize = 0;
        assert(json::list_view(list@) =~= self@.current_amounts(remaining, 0));
        while i < self.rows.len()
            invariant
                i <= self.rows@.len(),
                json::list_view(list@) == self@.current_amounts(remaining, i as int),
            decreases self.rows@.len() - i,
        {
            let ghost held = list@;
            assert(self@.rows[i as int] == self.rows@[i as int]@);
            if self.rows[i].current {
                match last_before(self.snapshots.as_slice(), self.rows[i].id.as_str(), self.snapshots.len()) {
                    Some(k) => {
                        let amount: Json = if remaining {
                            self.snapshots[k].remaining.clone()
                        } else {
                            self.snapshots[k].total.clone()
                        };
                        list.push(amount);
                        assert(json::list_view(list@) =~= json::list_view(held).push(amount@));
                    },
                    None => {},
                }
            }
            i += 1;
        }
        numbers::total(list)
    }

    fn sum_all(&self, w: Window) -> (r: Json)
        requires
            self.wf(),
        ensures
            r@ == self@.all_used(w),
    {
        let ghost u = usage_view(self.usages@);
        let mut list: Vec<Json> = Vec::new();
        let mut i: usize = 0;
        assert(groups_view(self.groups@).len() == self.rows@.len());
        while i < self.groups.len()
            invariant
                i <= self.groups@.len(),
                self.groups@.len() == self.rows@.len(),
                self.wf(),
                u == usage_view(self.usages@),
                list@.len() == i,
                forall|j: int|
                    0 <= j < i ==> (#[trigger] list@[j])@ == used_in(of_account(u, self@.rows[j].id), w, self.today),
            decreases self.groups@.len() - i,
        {
            assert(groups_view(self.groups@)[i as int] == of_account(u, self@.rows[i as int].id));
            assert(usage_view(self.groups@[i as int]@) == of_account(u, self@.rows[i as int].id));
            proof {
                group_on_days(u, self@.rows[i as int].id);
            }
            list.push(sum_window(self.groups[i].as_slice(), w, self.today));
            i += 1;
        }
        assert(json::list_view(list@) =~= Seq::new(
            self@.rows.len(),
            |i: int| used_in(of_account(u, self@.rows[i].id), w, self.today),
        ));
        numbers::total(list)
    }

    fn summary_json(&self) -> (r: Json)
        requires
            self.wf(),
        ensures
            r@ == self@.summary(),
    {
        let list: &[CheckinEvent] = self.checkins.as_slice();
        Json::object().put("currentRemaining", self.current_sum(true)).put(
            "currentCapacity",
            self.current_sum(false),
        ).put("usageToday", self.sum_all(Window::Today)).put("usage7Days", self.sum_all(Window::Week)).put(
            "usageThisMonth",
            self.sum_all(Window::Month),
        ).put("todayCheckedInAccounts", Json::count(count_owners(list, self.today))).put(
            "todaySuccess",
            Json::count(count_outcome(list, self.today, Outcome::Success)),
        ).put("todayAlready", Json::count(count_outcome(list, self.today, Outcome::Already))).put(
            "todayFailed",
            Json::count(count_outcome(list, self.today, Outcome::Failed)),
        )
    }

    fn account_rows(&self) -> (r: Vec<Json>)
        requires
            self.wf(),
        ensures
            json::list_view(r@) == self@.rows.map_values(|r: RowV| self@.account_summary(r)),
    {
        let mut list: Vec<Json> = Vec::new();
        let mut i: usize = 0;
        while i < self.rows.len()
            invariant
                i <= self.rows@.len(),
                self.wf(),
                list@.len() == i,
                forall|j: int| 0 <= j < i ==> (#[trigger] list@[j])@ == self@.account_summary(self@.rows[j]),
            decreases self.rows@.len() - i,
        {
            assert(self@.rows[i as int] == self.rows@[i as int]@);
            list.push(self.summarize(i));
            i += 1;
        }
        assert(json::list_view(list@) =~= self@.rows.map_values(|r: RowV| self@.account_summary(r)));
        list
    }
}

/// The times and values of a list.
pub open spec fn timed_view(s: Seq<(i64, Json)>) -> Seq<(int, JsonV)> {
    Seq::new(s.len(), |i: int| (s[i].0 as int, s[i].1@))
}

/// The first values of a list, without their times.
pub fn first_values(list: &[(i64, Json)], n: usize) -> (r: Vec<Json>)
    ensures
        json::list_view(r@) == untimed(first_n(timed_view(list@), n as int)),
{
    let ghost order = timed_view(list@);
    let mut out: Vec<Json> = Vec::new();
    let mut k: usize = 0;
    while k < list.len() && k < n
        invariant
            k <= list@.len(),
            k <= n,
            order == timed_view(list@),
            out@.len() == k,
            forall|i: int| 0 <= i < k ==> (#[trigger] out@[i])@ == order[i].1,
        decreases list@.len() - k,
    {
        assert(order[k as int].1 == list@[k as int].1@);
        out.push(list[k].1.clone());
        k += 1;
    }
    assert(json::list_view(out@) =~= untimed(first_n(order, n as int)));
    out
}

proof fn ranked_at(s: Seq<(int, JsonV)>, x: (int, JsonV), i: int)
    requires
        0 <= i <= s.len(),
        forall|j: int| i <= j < s.len() ==> (#[trigger] s[j]).0 < x.0,
        i == 0 || s[i - 1].0 >= x.0,
    ensures
        ranked_in(s, x) == s.insert(i, x),
    decreases s.len(),
{
    if i == s.len() {
        assert(s.insert(i, x) =~= s.push(x));
    } else {
        let n = s.len() - 1;
        ranked_at(s.subrange(0, n), x, i);
        assert(s.subrange(0, n).insert(i, x).push(s[n]) =~= s.insert(i, x));
    }
}

/// Puts an event into a list with the newest first, behind those of its own time.
pub fn rank(list: &mut Vec<(i64, Json)>, x: (i64, Json))
    ensures
        timed_view(final(list)@) == ranked_in(timed_view(old(list)@), (x.0 as int, x.1@)),
{
    let ghost before = list@;
    let mut i: usize = list.len();
    while i > 0 && list[i - 1].0 < x.0
        invariant
            i <= list@.len(),
            list@ == before,
            forall|j: int| i <= j < list@.len() ==> (#[trigger] timed_view(list@)[j]).0 < x.0 as int,
        decreases i,
    {
        i -= 1;
    }
    proof {
        if i > 0 {
            assert(timed_view(before)[i - 1].0 >= x.0 as int);
        }
        ranked_at(timed_view(before), (x.0 as int, x.1@), i as int);
    }
    list.insert(i, x);
    assert(timed_view(list@) =~= timed_view(before).insert(i as int, (x.0 as int, x.1@)));
}

proof fn checkins_on_days(log: Seq<JsonV>, days: Map<int, i32>, at: int)
    requires
        clock::days_valid(days),
    ensures
        forall|i: int|
            0 <= i < checkins_of(log, days, at).len() ==> clock::FIRST_DAY <= (#[trigger] checkins_of(
                log,
                days,
                at,
            )[i]).day <= clock::LAST_DAY,
    decreases log.len(),
{
    if log.len() > 0 {
        checkins_on_days(log.subrange(0, log.len() - 1), days, at);
    }
}

/// The statistics, given which falls count, the local days of the times in the
/// records and the log, and this day.
pub fn build_statistics(
    records: &[Json],
    log: &[Json],
    accounts: &[Json],
    fell: &[bool],
    days: &LocalDays,
    today: i32,
    at_ms: i64,
) -> (r: Json)
    requires
        clock::days_valid(days@),
        clock::FIRST_DAY + credit_usage::CREDIT_SNAPSHOT_RETENTION_DAYS <= today <= clock::LAST_DAY,
    ensures
        r@ == statistics_of(
            facts_of(
                json::list_view(records@),
                json::list_view(log@),
                json::list_view(accounts@),
                fell@,
                days@,
                today,
                at_ms as int,
            ),
            at_ms as int,
        ),
{
    let snapshots: Vec<Snapshot> = parse_snapshots(records, at_ms);
    let checkins: Vec<CheckinEvent> = find_checkins(log, days, at_ms);
    let rows: Vec<Row> = list_accounts(accounts, snapshots.as_slice(), checkins.as_slice());
    let usages: Vec<UsageEvent> = find_usages(snapshots.as_slice(), fell, days);
    let groups: Vec<Vec<UsageEvent>> = group_usages(rows.as_slice(), usages.as_slice());
    let earliest: i32 = today - 89;
    let start: Option<i32> = if snapshots.len() == 0 {
        None
    } else {
        match days.get(snapshots[0].ts) {
            Some(d) => Some(
                if d > earliest {
                    d
                } else {
                    earliest
                },
            ),
            None => None,
        }
    };
    let coverage: Json = if snapshots.len() > 0 {
        Json::num(snapshots[0].ts)
    } else {
        Json::Null
    };
    proof {
        usages_on_days(snapshots_view(snapshots@), fell@, days@, snapshots@.len() as int);
        checkins_on_days(json::list_view(log@), days@, at_ms as int);
        assert forall|i: int| 0 <= i < checkins@.len() implies clock::FIRST_DAY <= (#[trigger] checkins@[i]).day
            <= clock::LAST_DAY by {
            assert(checkins_view(checkins@)[i].day == checkins@[i].day);
        }
        if snapshots@.len() > 0 {
            assert(snapshots_view(snapshots@)[0] == snapshots@[0]@);
        }
    }
    let m: Material = Material { snapshots, checkins, rows, usages, groups, start, today };
    let daily: Vec<Json> = total_daily_series(m.groups.as_slice(), m.start, m.today);
    Json::object().put("generatedAt", Json::num(at_ms)).put(
        "retentionDays",
        Json::num(credit_usage::CREDIT_SNAPSHOT_RETENTION_DAYS),
    ).put("coverageStartAt", coverage).put("summary", m.summary_json()).put("daily", Json::Arr(daily)).put(
        "accounts",
        Json::Arr(m.account_rows()),
    ).put("events", Json::Arr(m.recent_events()))
}

/// The days are those of the times in the records and in the log, in some time zone.
pub open spec fn days_of_all(records: Seq<JsonV>, log: Seq<JsonV>, days: Map<int, i32>) -> bool {
    &&& clock::days_looked_up(days)
    &&& forall|i: int|
        0 <= i < records.len() ==> ((#[trigger] records[i]).get_i64("ts"@) matches Some(t) ==> (clock::has_day(t) ==> days.contains_key(t)))
    &&& forall|i: int|
        0 <= i < log.len() ==> (entry_time(#[trigger] log[i]) matches Some(t) ==> (clock::has_day(t) ==> days.contains_key(t)))
}

/// The local days of the times that the statistics are drawn from.
pub fn statistics_days(records: &[Json], log: &[Json]) -> (days: LocalDays)
    ensures
        clock::days_valid(days@),
        days_of_all(json::list_view(records@), json::list_view(log@), days@),
{
    let ghost seen = json::list_view(records@);
    let ghost logged = json::list_view(log@);
    let mut days: LocalDays = LocalDays::new();
    let mut i: usize = 0;
    while i < records.len()
        invariant
            i <= records@.len(),
            seen == json::list_view(records@),
            clock::days_looked_up(days@),
            forall|k: int|
                0 <= k < i ==> ((#[trigger] seen[k]).get_i64("ts"@) matches Some(t) ==> (clock::has_day(t) ==> days@.contains_key(t))),
        decreases records@.len() - i,
    {
        assert(seen[i as int] == records@[i as int]@);
        match records[i].get_i64("ts") {
            Some(t) => {
                let ghost before = days@;
                days.look_up(t);
                proof {
                    clock::others_stay(before, days@, t as int);
                }
            },
            None => {},
        }
        i += 1;
    }
    let mut j: usize = 0;
    while j < log.len()
        invariant
            j <= log@.len(),
            logged == json::list_view(log@),
            clock::days_looked_up(days@),
            forall|k: int|
                0 <= k < seen.len() ==> ((#[trigger] seen[k]).get_i64("ts"@) matches Some(t) ==> (clock::has_day(t) ==> days@.contains_key(t))),
            forall|k: int|
                0 <= k < j ==> (entry_time(#[trigger] logged[k]) matches Some(t) ==> (clock::has_day(t) ==> days@.contains_key(t))),
        decreases log@.len() - j,
    {
        assert(logged[j as int] == log@[j as int]@);
        match time_of_entry(&log[j]) {
            Some(t) => {
                let ghost before = days@;
                days.look_up(t);
                proof {
                    clock::others_stay(before, days@, t as int);
                }
            },
            None => {},
        }
        j += 1;
    }
    days
}

/// The usage is the fall from the balance at `p` to the account's next one at `k`.
pub open spec fn falls_between(
    s: Seq<SnapshotV>,
    fell: Seq<bool>,
    days: Map<int, i32>,
    u: UsageV,
    p: int,
    k: int,
) -> bool {
    &&& 0 <= p < k < s.len() && k < fell.len() && fell[k]
    &&& s[p].account == u.owner && s[k].account == u.owner
    &&& forall|j: int| p < j < k ==> (#[trigger] s[j]).account != u.owner
    &&& u.ts == s[k].ts && u.variant == s[k].variant
    &&& u.amount == numbers::minus(s[p].remaining, s[k].remaining)
    &&& clock::day_at(days, s[k].ts) == Some(u.day)
}

/// Everything that counts as used is the fall from one balance of an account to
/// the account's next: a first balance uses nothing.
pub proof fn usage_is_a_fall(s: Seq<SnapshotV>, fell: Seq<bool>, days: Map<int, i32>, n: int, i: int)
    requires
        0 <= n <= s.len(),
        0 <= i < usages_of(s, fell, days, n).len(),
    ensures
        exists|p: int, k: int| #[trigger] falls_between(s, fell, days, usages_of(s, fell, days, n)[i], p, k),
    decreases n,
{
    let rest = usages_of(s, fell, days, n - 1);
    if i < rest.len() {
        usage_is_a_fall(s, fell, days, n - 1, i);
        assert(usages_of(s, fell, days, n)[i] == rest[i]);
    } else {
        before_is_nearest(s, s[n - 1].account, n - 1);
        let p = before(s, s[n - 1].account, n - 1)->0;
        assert(falls_between(s, fell, days, usages_of(s, fell, days, n)[i], p, n - 1));
    }
}

proof fn before_is_nearest(s: Seq<SnapshotV>, id: Seq<char>, k: int)
    requires
        0 <= k <= s.len(),
    ensures
        match before(s, id, k) {
            Some(p) => 0 <= p < k && s[p].account == id && forall|j: int| p < j < k ==> (#[trigger] s[j]).account != id,
            None => forall|j: int| 0 <= j < k ==> (#[trigger] s[j]).account != id,
        },
    decreases k,
{
    if k > 0 && s[k - 1].account != id {
        before_is_nearest(s, id, k - 1);
    }
}

/// No account is listed twice.
pub open spec fn rows_distinct(rows: Seq<RowV>) -> bool {
    forall|i: int, j: int| 0 <= i < j < rows.len() ==> (#[trigger] rows[i]).id != (#[trigger] rows[j]).id
}

proof fn row_from_first(rows: Seq<RowV>, id: Seq<char>, from: int)
    requires
        0 <= from,
    ensures
        match row_from(rows, id, from) {
            Some(k) => from <= k < rows.len() && rows[k].id == id,
            None => forall|j: int| from <= j < rows.len() ==> (#[trigger] rows[j]).id != id,
        },
    decreases rows.len() - from,
{
    if from < rows.len() && rows[from].id != id {
        row_from_first(rows, id, from + 1);
    }
}

proof fn mentioning_keeps_distinct(rows: Seq<RowV>, id: Seq<char>, name: Seq<char>, v: WbVariant, current: bool)
    requires
        rows_distinct(rows),
    ensures
        rows_distinct(mentioned(rows, id, name, v, current)),
{
    row_from_first(rows, id, 0);
    let next = mentioned(rows, id, name, v, current);
    assert forall|i: int, j: int| 0 <= i < j < next.len() implies (#[trigger] next[i]).id != (#[trigger] next[j]).id by {
        if j < rows.len() {
            assert(next[i].id == rows[i].id && next[j].id == rows[j].id);
        }
    }
}

proof fn current_rows_distinct(accounts: Seq<JsonV>)
    ensures
        rows_distinct(current_rows(accounts)),
    decreases accounts.len(),
{
    if accounts.len() > 0 {
        let front = accounts.subrange(0, accounts.len() - 1);
        let a = accounts[accounts.len() - 1];
        current_rows_distinct(front);
        match account::str_of(a, "id"@) {
            Some(id) => {
                mentioning_keeps_distinct(
                    current_rows(front),
                    id,
                    account::display_name(a),
                    crate::variant::variant_in(a),
                    true,
                );
            },
            None => {},
        }
    }
}

proof fn snapshot_rows_distinct(rows: Seq<RowV>, s: Seq<SnapshotV>, n: int)
    requires
        rows_distinct(rows),
    ensures
        rows_distinct(with_snapshots(rows, s, n)),
    decreases n,
{
    if 0 < n <= s.len() {
        snapshot_rows_distinct(rows, s, n - 1);
        mentioning_keeps_distinct(
            with_snapshots(rows, s, n - 1),
            s[n - 1].account,
            s[n - 1].name,
            s[n - 1].variant,
            false,
        );
    }
}

proof fn checkin_rows_distinct(rows: Seq<RowV>, c: Seq<CheckinV>, n: int)
    requires
        rows_distinct(rows),
    ensures
        rows_distinct(with_checkins(rows, c, n)),
    decreases n,
{
    if 0 < n <= c.len() {
        checkin_rows_distinct(rows, c, n - 1);
        let rest = with_checkins(rows, c, n - 1);
        match c[n - 1].account {
            Some(id) => {
                mentioning_keeps_distinct(rest, id, c[n - 1].name, edition_in(rest, id), false);
            },
            None => {},
        }
    }
}

/// The statistics list every account once, however often it is stored, seen or
/// checked in.
pub proof fn accounts_listed_once(accounts: Seq<JsonV>, s: Seq<SnapshotV>, c: Seq<CheckinV>)
    ensures
        rows_distinct(roster(accounts, s, c)),
{
    current_rows_distinct(accounts);
    snapshot_rows_distinct(current_rows(accounts), s, s.len() as int);
    checkin_rows_distinct(with_snapshots(current_rows(accounts), s, s.len() as int), c, c.len() as int);
}

/// The newest come first.
pub open spec fn newest_first(s: Seq<(int, JsonV)>) -> bool {
    forall|i: int, j: int| 0 <= i <= j < s.len() ==> (#[trigger] s[i]).0 >= (#[trigger] s[j]).0
}

proof fn ranking_keeps_order(s: Seq<(int, JsonV)>, x: (int, JsonV))
    requires
        newest_first(s),
    ensures
        newest_first(ranked_in(s, x)),
        ranked_in(s, x).len() == s.len() + 1,
        s.len() > 0 ==> ranked_in(s, x)[s.len() as int].0 == (if s[s.len() - 1].0 >= x.0 {
            x.0
        } else {
            s[s.len() - 1].0
        }),
    decreases s.len(),
{
    if !(s.len() == 0 || s[s.len() - 1].0 >= x.0) {
        let t = s.subrange(0, s.len() - 1);
        ranking_keeps_order(t, x);
        let p = ranked_in(t, x);
        assert(ranked_in(s, x) == p.push(s[s.len() - 1]));
        assert forall|i: int| 0 <= i < p.len() implies (#[trigger] p[i]).0 >= s[s.len() - 1].0 by {
            assert(p[i].0 >= p[p.len() - 1].0);
        }
    }
}

/// The events come with the newest first, and none is lost by ordering them.
pub proof fn events_newest_first(events: Seq<(int, JsonV)>)
    ensures
        newest_first(ranked(events)),
        ranked(events).len() == events.len(),
    decreases events.len(),
{
    if events.len() > 0 {
        let front = events.subrange(0, events.len() - 1);
        events_newest_first(front);
        ranking_keeps_order(ranked(front), events[events.len() - 1]);
    }
}

/// How many records hold a snapshot within the retention time.
spec fn held(records: Seq<JsonV>, at: int, x: SnapshotV) -> int
    decreases records.len(),
{
    if records.len() == 0 {
        0
    } else {
        held(records.drop_last(), at, x) + holds(records.last(), at, x)
    }
}

spec fn holds(v: JsonV, at: int, x: SnapshotV) -> int {
    if credit_usage::snapshot_in(v) == Some(x) && credit_usage::in_time(x.ts, at) {
        1
    } else {
        0
    }
}

proof fn placing_adds(s: Seq<SnapshotV>, x: SnapshotV)
    ensures
        placed(s, x).to_multiset() == s.to_multiset().insert(x),
    decreases s.len(),
{
    broadcast use vstd::seq_lib::group_to_multiset_ensures;

    if !(s.len() == 0 || s[s.len() - 1].ts <= x.ts) {
        let front = s.subrange(0, s.len() - 1);
        placing_adds(front, x);
        assert(s =~= front.push(s[s.len() - 1]));
    }
}

proof fn sorting_holds(records: Seq<JsonV>, at: int, x: SnapshotV)
    ensures
        sorted_snapshots(records, at).to_multiset().count(x) == held(records, at, x),
    decreases records.len(),
{
    broadcast use vstd::seq_lib::group_to_multiset_ensures;

    if records.len() > 0 {
        let front = records.subrange(0, records.len() - 1);
        assert(front =~= records.drop_last());
        sorting_holds(front, at, x);
        match credit_usage::snapshot_in(records[records.len() - 1]) {
            Some(y) => {
                placing_adds(sorted_snapshots(front, at), y);
            },
            None => {},
        }
    }
}

proof fn held_without(records: Seq<JsonV>, at: int, x: SnapshotV, i: int)
    requires
        0 <= i < records.len(),
    ensures
        held(records, at, x) == held(records.remove(i), at, x) + holds(records[i], at, x),
    decreases records.len(),
{
    let n = records.len() - 1;
    if i < n {
        held_without(records.drop_last(), at, x, i);
        assert(records.remove(i).drop_last() =~= records.drop_last().remove(i));
        assert(records.remove(i).last() == records.last());
    } else {
        assert(records.remove(i) =~= records.drop_last());
    }
}

proof fn held_in_any_order(records: Seq<JsonV>, other: Seq<JsonV>, at: int, x: SnapshotV)
    requires
        records.to_multiset() == other.to_multiset(),
    ensures
        held(records, at, x) == held(other, at, x),
    decreases records.len(),
{
    broadcast use vstd::seq_lib::group_to_multiset_ensures;

    assert(records.to_multiset().len() == records.len());
    assert(other.to_multiset().len() == other.len());
    if records.len() > 0 {
        let last = records.len() - 1;
        assert(records.to_multiset().contains(records[last]));
        assert(other.contains(records[last]));
        let i = choose|i: int| 0 <= i < other.len() && other[i] == records[last];
        assert(records.remove(last).to_multiset() == other.remove(i).to_multiset());
        held_in_any_order(records.remove(last), other.remove(i), at, x);
        held_without(records, at, x, last);
        held_without(other, at, x, i);
    }
}

proof fn same_snapshots(records: Seq<JsonV>, other: Seq<JsonV>, at: int)
    requires
        records.to_multiset() == other.to_multiset(),
    ensures
        sorted_snapshots(records, at).to_multiset() == sorted_snapshots(other, at).to_multiset(),
{
    let a = sorted_snapshots(records, at).to_multiset();
    let b = sorted_snapshots(other, at).to_multiset();
    assert forall|x: SnapshotV| #[trigger] a.count(x) == b.count(x) by {
        sorting_holds(records, at, x);
        sorting_holds(other, at, x);
        held_in_any_order(records, other, at, x);
    }
    assert(a =~= b);
}

/// No account has two snapshots of one time.
pub open spec fn times_differ(s: Seq<SnapshotV>) -> bool {
    forall|i: int, j: int|
        0 <= i < j < s.len() && (#[trigger] s[i]).account == (#[trigger] s[j]).account ==> s[i].ts != s[j].ts
}

proof fn found_apart(s: Seq<SnapshotV>, t: Seq<SnapshotV>, i: int, j: int) -> (r: (int, int))
    requires
        s.to_multiset() == t.to_multiset(),
        0 <= i < j < t.len(),
    ensures
        0 <= r.0 < s.len(),
        0 <= r.1 < s.len(),
        r.0 != r.1,
        s[r.0] == t[i],
        s[r.1] == t[j],
{
    broadcast use vstd::seq_lib::group_to_multiset_ensures;

    assert(t.to_multiset().contains(t[i]));
    assert(s.contains(t[i]));
    let a = choose|a: int| 0 <= a < s.len() && s[a] == t[i];
    assert(s.remove(a).to_multiset() == t.remove(i).to_multiset());
    assert(t.remove(i)[j - 1] == t[j]);
    assert(t.remove(i).contains(t[j]));
    assert(s.remove(a).to_multiset().contains(t[j]));
    assert(s.remove(a).contains(t[j]));
    let c = choose|c: int| 0 <= c < s.remove(a).len() && s.remove(a)[c] == t[j];
    (
        a,
        if c < a {
            c
        } else {
            c + 1
        },
    )
}

proof fn times_differ_in_any_order(s: Seq<SnapshotV>, t: Seq<SnapshotV>)
    requires
        s.to_multiset() == t.to_multiset(),
        times_differ(s),
    ensures
        times_differ(t),
{
    assert forall|i: int, j: int|
        0 <= i < j < t.len() && (#[trigger] t[i]).account == (#[trigger] t[j]).account implies t[i].ts != t[j].ts by {
        let (a, b) = found_apart(s, t, i, j);
        if a < b {
            assert(s[a].ts != s[b].ts);
        } else {
            assert(s[b].ts != s[a].ts);
        }
    }
}

/// The account's snapshots among the first `n`.
spec fn own(s: Seq<SnapshotV>, id: Seq<char>, n: int) -> Seq<SnapshotV>
    decreases n,
{
    if n <= 0 || n > s.len() {
        Seq::empty()
    } else if s[n - 1].account == id {
        own(s, id, n - 1).push(s[n - 1])
    } else {
        own(s, id, n - 1)
    }
}

spec fn rising(s: Seq<SnapshotV>) -> bool {
    forall|i: int, j: int| 0 <= i < j < s.len() ==> (#[trigger] s[i]).ts < (#[trigger] s[j]).ts
}

proof fn own_are_there(s: Seq<SnapshotV>, id: Seq<char>, n: int)
    requires
        0 <= n <= s.len(),
    ensures
        forall|i: int|
            0 <= i < own(s, id, n).len() ==> exists|k: int| 0 <= k < n && s[k] == #[trigger] own(s, id, n)[i],
        forall|i: int| 0 <= i < own(s, id, n).len() ==> (#[trigger] own(s, id, n)[i]).account == id,
        forall|k: int| 0 <= k < n && (#[trigger] s[k]).account == id ==> own(s, id, n).contains(s[k]),
    decreases n,
{
    if n > 0 {
        own_are_there(s, id, n - 1);
        let rest = own(s, id, n - 1);
        let all = own(s, id, n);
        assert forall|i: int| 0 <= i < all.len() implies exists|k: int| 0 <= k < n && s[k] == #[trigger] all[i] by {
            if i < rest.len() {
                assert(all[i] == rest[i]);
                let k = choose|k: int| 0 <= k < n - 1 && s[k] == rest[i];
                assert(s[k] == all[i]);
            } else {
                assert(s[n - 1] == all[i]);
            }
        }
        assert forall|i: int| 0 <= i < all.len() implies (#[trigger] all[i]).account == id by {
            if i < rest.len() {
                assert(all[i] == rest[i]);
            }
        }
        assert forall|k: int| 0 <= k < n && (#[trigger] s[k]).account == id implies all.contains(s[k]) by {
            if k < n - 1 {
                assert(rest.contains(s[k]));
                let i = choose|i: int| 0 <= i < rest.len() && rest[i] == s[k];
                assert(all[i] == s[k]);
            } else {
                assert(all[rest.len() as int] == s[k]);
            }
        }
    }
}

proof fn own_rise(s: Seq<SnapshotV>, id: Seq<char>, n: int)
    requires
        0 <= n <= s.len(),
        forall|i: int, j: int| 0 <= i <= j < s.len() ==> (#[trigger] s[i]).ts <= (#[trigger] s[j]).ts,
        times_differ(s),
    ensures
        rising(own(s, id, n)),
    decreases n,
{
    if n > 0 {
        own_rise(s, id, n - 1);
        own_are_there(s, id, n - 1);
        let rest = own(s, id, n - 1);
        let all = own(s, id, n);
        assert forall|i: int, j: int| 0 <= i < j < all.len() implies (#[trigger] all[i]).ts < (#[trigger] all[j]).ts by {
            assert(all[i] == rest[i]);
            if j < rest.len() {
                assert(all[j] == rest[j]);
            } else {
                let k = choose|k: int| 0 <= k < n - 1 && s[k] == rest[i];
                assert(s[k].ts <= s[n - 1].ts);
                assert(s[k].account == s[n - 1].account);
            }
        }
    }
}

proof fn rising_are_equal(a: Seq<SnapshotV>, b: Seq<SnapshotV>)
    requires
        rising(a),
        rising(b),
        forall|i: int| 0 <= i < a.len() ==> b.contains(#[trigger] a[i]),
        forall|i: int| 0 <= i < b.len() ==> a.contains(#[trigger] b[i]),
    ensures
        a == b,
    decreases a.len(),
{
    if a.len() == 0 {
        if b.len() > 0 {
            assert(a.contains(b[0]));
        }
        assert(a =~= b);
    } else {
        let x = a.last();
        assert(b.contains(a[a.len() - 1]));
        let y = b.last();
        assert(a.contains(b[b.len() - 1]));
        let j = choose|j: int| 0 <= j < b.len() && b[j] == x;
        let i = choose|i: int| 0 <= i < a.len() && a[i] == y;
        assert(j == b.len() - 1) by {
            if j < b.len() - 1 {
                assert(b[j].ts < b[b.len() - 1].ts);
                if i < a.len() - 1 {
                    assert(a[i].ts < a[a.len() - 1].ts);
                }
            }
        }
        let p = a.drop_last();
        let q = b.drop_last();
        assert(rising(p)) by {
            assert forall|m: int, n: int| 0 <= m < n < p.len() implies (#[trigger] p[m]).ts < (#[trigger] p[n]).ts by {
                assert(a[m].ts < a[n].ts);
            }
        }
        assert(rising(q)) by {
            assert forall|m: int, n: int| 0 <= m < n < q.len() implies (#[trigger] q[m]).ts < (#[trigger] q[n]).ts by {
                assert(b[m].ts < b[n].ts);
            }
        }
        assert forall|m: int| 0 <= m < p.len() implies q.contains(#[trigger] p[m]) by {
            assert(b.contains(a[m]));
            let n = choose|n: int| 0 <= n < b.len() && b[n] == a[m];
            assert(a[m].ts < a[a.len() - 1].ts);
            assert(q[n] == p[m]);
        }
        assert forall|m: int| 0 <= m < q.len() implies p.contains(#[trigger] q[m]) by {
            assert(a.contains(b[m]));
            let n = choose|n: int| 0 <= n < a.len() && a[n] == b[m];
            assert(b[m].ts < b[b.len() - 1].ts);
            assert(p[n] == q[m]);
        }
        rising_are_equal(p, q);
        assert(a =~= p.push(x));
        assert(b =~= q.push(x));
    }
}

proof fn own_in_any_order(s: Seq<SnapshotV>, t: Seq<SnapshotV>, id: Seq<char>)
    requires
        s.to_multiset() == t.to_multiset(),
        times_differ(s),
        forall|i: int, j: int| 0 <= i <= j < s.len() ==> (#[trigger] s[i]).ts <= (#[trigger] s[j]).ts,
        forall|i: int, j: int| 0 <= i <= j < t.len() ==> (#[trigger] t[i]).ts <= (#[trigger] t[j]).ts,
    ensures
        own(s, id, s.len() as int) == own(t, id, t.len() as int),
{
    broadcast use vstd::seq_lib::group_to_multiset_ensures;

    let a = own(s, id, s.len() as int);
    let b = own(t, id, t.len() as int);
    times_differ_in_any_order(s, t);
    own_rise(s, id, s.len() as int);
    own_rise(t, id, t.len() as int);
    own_are_there(s, id, s.len() as int);
    own_are_there(t, id, t.len() as int);
    assert forall|i: int| 0 <= i < a.len() implies b.contains(#[trigger] a[i]) by {
        let k = choose|k: int| 0 <= k < s.len() && s[k] == a[i];
        assert(s.to_multiset().contains(s[k]));
        assert(t.contains(s[k]));
        let m = choose|m: int| 0 <= m < t.len() && t[m] == s[k];
        assert(t[m].account == id);
    }
    assert forall|i: int| 0 <= i < b.len() implies a.contains(#[trigger] b[i]) by {
        let k = choose|k: int| 0 <= k < t.len() && t[k] == b[i];
        assert(t.to_multiset().contains(t[k]));
        assert(s.contains(t[k]));
        let m = choose|m: int| 0 <= m < s.len() && s[m] == t[k];
        assert(s[m].account == id);
    }
    rising_are_equal(a, b);
}

proof fn before_is_last_own(s: Seq<SnapshotV>, id: Seq<char>, k: int)
    requires
        0 <= k <= s.len(),
    ensures
        match before(s, id, k) {
            Some(p) => 0 <= p < k && own(s, id, k).len() > 0 && s[p] == own(s, id, k).last(),
            None => own(s, id, k).len() == 0,
        },
    decreases k,
{
    if k > 0 && s[k - 1].account != id {
        before_is_last_own(s, id, k - 1);
    }
}

/// Which falls count, where `over` says which amounts do.
pub open spec fn counted(s: Seq<SnapshotV>, over: spec_fn(JsonV) -> bool) -> Seq<bool> {
    Seq::new(s.len(), |k: int| over(fall(s, k)))
}

/// What an account used, by its own snapshots.
spec fn own_usages(o: Seq<SnapshotV>, over: spec_fn(JsonV) -> bool, days: Map<int, i32>) -> Seq<UsageV>
    decreases o.len(),
{
    if o.len() < 2 {
        Seq::empty()
    } else {
        let rest = own_usages(o.drop_last(), over, days);
        let was = o[o.len() - 2];
        let is = o[o.len() - 1];
        let amount = numbers::minus(was.remaining, is.remaining);
        match clock::day_at(days, is.ts) {
            Some(day) => if over(amount) {
                rest.push(UsageV { ts: is.ts, day, owner: is.account, variant: is.variant, amount })
            } else {
                rest
            },
            None => rest,
        }
    }
}

proof fn of_account_pushed(u: Seq<UsageV>, x: UsageV, id: Seq<char>)
    ensures
        of_account(u.push(x), id) == (if x.owner == id {
            of_account(u, id).push(x)
        } else {
            of_account(u, id)
        }),
{
    assert(u.push(x).subrange(0, u.len() as int) =~= u);
}

proof fn usages_by_own(
    s: Seq<SnapshotV>,
    over: spec_fn(JsonV) -> bool,
    days: Map<int, i32>,
    id: Seq<char>,
    n: int,
)
    requires
        0 <= n <= s.len(),
    ensures
        of_account(usages_of(s, counted(s, over), days, n), id) == own_usages(own(s, id, n), over, days),
    decreases n,
{
    if n > 0 {
        usages_by_own(s, over, days, id, n - 1);
        let x = s[n - 1];
        let rest = usages_of(s, counted(s, over), days, n - 1);
        let o = own(s, id, n - 1);
        before_is_last_own(s, x.account, n - 1);
        match usage_at(s, counted(s, over), days, n - 1) {
            Some(d) => {
                of_account_pushed(rest, d, id);
            },
            None => {},
        }
        if x.account == id {
            assert(own(s, id, n) == o.push(x));
            assert(o.push(x).drop_last() =~= o);
        }
    }
}

/// The row of an account, where it is listed.
pub open spec fn row_of(rows: Seq<RowV>, id: Seq<char>) -> Option<RowV> {
    match row_from(rows, id, 0) {
        Some(i) => Some(rows[i]),
        None => None,
    }
}

/// A row after one more mention of its account.
spec fn told_more(row: Option<RowV>, id: Seq<char>, name: Seq<char>, v: WbVariant, current: bool) -> RowV {
    match row {
        Some(r) => RowV {
            name: if r.name == "unknown"@ {
                name
            } else {
                r.name
            },
            variant: if v == WbVariant::Ai {
                v
            } else {
                r.variant
            },
            ..r
        },
        None => RowV { id, name, variant: v, current },
    }
}

proof fn row_from_is_first(rows: Seq<RowV>, id: Seq<char>, from: int)
    requires
        0 <= from,
    ensures
        match row_from(rows, id, from) {
            Some(k) => from <= k < rows.len() && rows[k].id == id && forall|j: int|
                from <= j < k ==> (#[trigger] rows[j]).id != id,
            None => forall|j: int| from <= j < rows.len() ==> (#[trigger] rows[j]).id != id,
        },
    decreases rows.len() - from,
{
    if from < rows.len() && rows[from].id != id {
        row_from_is_first(rows, id, from + 1);
    }
}

proof fn mention_tells(rows: Seq<RowV>, m: Seq<char>, name: Seq<char>, v: WbVariant, current: bool, id: Seq<char>)
    ensures
        row_of(mentioned(rows, m, name, v, current), id) == (if m == id {
            Some(told_more(row_of(rows, id), id, name, v, current))
        } else {
            row_of(rows, id)
        }),
{
    let next = mentioned(rows, m, name, v, current);
    row_from_is_first(rows, m, 0);
    row_from_is_first(rows, id, 0);
    row_from_is_first(next, id, 0);
    assert forall|j: int| 0 <= j < rows.len() implies (#[trigger] next[j]).id == rows[j].id by {}
    match row_from(rows, id, 0) {
        Some(k) => {
            assert(next[k].id == id);
            let q = row_from(next, id, 0)->0;
            assert(row_from(next, id, 0) is Some);
            if q < k {
                assert(next[q].id == rows[q].id);
            }
            assert(q == k);
        },
        None => {
            if m == id {
                assert(next[rows.len() as int].id == id);
                let q = row_from(next, id, 0)->0;
                assert(row_from(next, id, 0) is Some);
                if q < rows.len() {
                    assert(next[q].id == rows[q].id);
                }
            } else if row_from(next, id, 0) is Some {
                let q = row_from(next, id, 0)->0;
                if q < rows.len() {
                    assert(next[q].id == rows[q].id);
                }
            }
        },
    }
}

/// A row after its account's own snapshots.
spec fn seen_more(row: Option<RowV>, o: Seq<SnapshotV>) -> Option<RowV>
    decreases o.len(),
{
    if o.len() == 0 {
        row
    } else {
        let x = o.last();
        Some(told_more(seen_more(row, o.drop_last()), x.account, x.name, x.variant, false))
    }
}

proof fn snapshots_tell(rows: Seq<RowV>, s: Seq<SnapshotV>, id: Seq<char>, n: int)
    requires
        0 <= n <= s.len(),
    ensures
        row_of(with_snapshots(rows, s, n), id) == seen_more(row_of(rows, id), own(s, id, n)),
    decreases n,
{
    if n > 0 {
        let x = s[n - 1];
        snapshots_tell(rows, s, id, n - 1);
        mention_tells(with_snapshots(rows, s, n - 1), x.account, x.name, x.variant, false, id);
        if x.account == id {
            assert(own(s, id, n - 1).push(x).drop_last() =~= own(s, id, n - 1));
        }
    }
}

proof fn checkins_tell(rows: Seq<RowV>, others: Seq<RowV>, c: Seq<CheckinV>, id: Seq<char>, n: int)
    requires
        row_of(rows, id) == row_of(others, id),
    ensures
        row_of(with_checkins(rows, c, n), id) == row_of(with_checkins(others, c, n), id),
    decreases n,
{
    if 0 < n <= c.len() {
        checkins_tell(rows, others, c, id, n - 1);
        let a = with_checkins(rows, c, n - 1);
        let b = with_checkins(others, c, n - 1);
        match c[n - 1].account {
            Some(m) => {
                mention_tells(a, m, c[n - 1].name, edition_in(a, m), false, id);
                mention_tells(b, m, c[n - 1].name, edition_in(b, m), false, id);
            },
            None => {},
        }
    }
}

impl Facts {
    /// What the statistics tell of the account with an identifier, where it is listed.
    pub open spec fn told_of(self, id: Seq<char>) -> Option<JsonV> {
        match row_of(self.rows, id) {
            Some(row) => Some(self.account_summary(row)),
            None => None,
        }
    }
}

/// The order of the records does not matter: where no account has two snapshots of
/// one time, the same records in another order tell the same of every account, and
/// begin at the same time; what is told of an account is its row. `over` says which
/// falls count.
pub proof fn order_of_records_does_not_matter(
    records: Seq<JsonV>,
    other: Seq<JsonV>,
    log: Seq<JsonV>,
    accounts: Seq<JsonV>,
    over: spec_fn(JsonV) -> bool,
    days: Map<int, i32>,
    today: i32,
    at: int,
    id: Seq<char>,
)
    requires
        records.to_multiset() == other.to_multiset(),
        times_differ(sorted_snapshots(records, at)),
    ensures
        ({
            let fell = counted(sorted_snapshots(records, at), over);
            let fell_other = counted(sorted_snapshots(other, at), over);
            let f = facts_of(records, log, accounts, fell, days, today, at);
            let g = facts_of(other, log, accounts, fell_other, days, today, at);
            &&& f.told_of(id) == g.told_of(id)
            &&& forall|i: int|
                0 <= i < f.rows.len() ==> f.told_of((#[trigger] f.rows[i]).id) == Some(f.account_summary(f.rows[i]))
            &&& statistics_of(f, at).get("coverageStartAt"@) == statistics_of(g, at).get("coverageStartAt"@)
        }),
{
    broadcast use vstd::seq_lib::group_to_multiset_ensures;

    let s = sorted_snapshots(records, at);
    let t = sorted_snapshots(other, at);
    let c = checkins_of(log, days, at);
    let f = facts_of(records, log, accounts, counted(s, over), days, today, at);
    let g = facts_of(other, log, accounts, counted(t, over), days, today, at);
    same_snapshots(records, other, at);
    snapshots_are_sorted(records, at);
    snapshots_are_sorted(other, at);
    own_in_any_order(s, t, id);
    assert(s.to_multiset().len() == s.len());
    assert(t.to_multiset().len() == t.len());
    if s.len() > 0 {
        assert(s.to_multiset().contains(s[0]));
        assert(t.contains(s[0]));
        let i = choose|i: int| 0 <= i < t.len() && t[i] == s[0];
        assert(t[0].ts <= t[i].ts);
        assert(t.to_multiset().contains(t[0]));
        assert(s.contains(t[0]));
        let j = choose|j: int| 0 <= j < s.len() && s[j] == t[0];
        assert(s[0].ts <= s[j].ts);
        assert(s[0].ts == t[0].ts);
    }
    let first = current_rows(accounts);
    snapshots_tell(first, s, id, s.len() as int);
    snapshots_tell(first, t, id, t.len() as int);
    checkins_tell(
        with_snapshots(first, s, s.len() as int),
        with_snapshots(first, t, t.len() as int),
        c,
        id,
        c.len() as int,
    );
    row_from_is_first(f.rows, id, 0);
    before_is_last_own(s, id, s.len() as int);
    before_is_last_own(t, id, t.len() as int);
    usages_by_own(s, over, days, id, s.len() as int);
    usages_by_own(t, over, days, id, t.len() as int);
    assert(f.latest(id) == g.latest(id));
    assert(of_account(f.usages, id) == of_account(g.usages, id));
    assert(f.start == g.start);
    match row_of(f.rows, id) {
        Some(row) => {
            assert(row.id == id);
            assert(f.account_summary(row) == g.account_summary(row));
        },
        None => {},
    }
    coverage_is_told(f, at);
    coverage_is_told(g, at);
    accounts_listed_once(accounts, s, c);
    assert forall|i: int| 0 <= i < f.rows.len() implies f.told_of((#[trigger] f.rows[i]).id) == Some(
        f.account_summary(f.rows[i]),
    ) by {
        row_from_is_first(f.rows, f.rows[i].id, 0);
        let k = row_from(f.rows, f.rows[i].id, 0)->0;
        if k < i {
            assert(f.rows[k].id != f.rows[i].id);
        } else if i < k {
            assert(f.rows[i].id != f.rows[k].id);
        }
    }
}

proof fn coverage_is_told(f: Facts, at: int)
    ensures
        statistics_of(f, at).get("coverageStartAt"@) == Some(
            if f.snapshots.len() > 0 {
                JsonV::Int(f.snapshots[0].ts)
            } else {
                JsonV::Null
            },
        ),
{
    reveal_strlit("coverageStartAt");
    reveal_strlit("summary");
    reveal_strlit("daily");
    reveal_strlit("accounts");
    reveal_strlit("events");
    assert("coverageStartAt"@.len() == 15);
    assert("summary"@.len() == 7 && "daily"@.len() == 5 && "accounts"@.len() == 8 && "events"@.len() == 6);
}

} // verus!
