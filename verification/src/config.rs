//! Settings, log files and where they lie.
use vstd::prelude::*;
use crate::account;
use crate::clock;
use crate::clock::LocalDays;
use crate::json;
use crate::json::{Json, JsonV};
use crate::paths;
use crate::text;

verus! {

pub const OAUTH_TIMEOUT_SECONDS: i64 = 600;

pub const CHECKIN_API_PREFIX: &'static str = "/v2/billing/meter";

pub const CHECKIN_LOG_KEEP_DAYS: i64 = 30;

pub const CHECKIN_LOG_MAX_RECORDS: usize = 500;

pub const ROTATE_LOG_MAX_RECORDS: usize = 200;

pub const TRAVEL_LOG_MAX_RECORDS: usize = 200;

/// The browser whose name the requests go by.
pub const HTTP_USER_AGENT: &'static str = "Mozilla/5.0 (Windows NT 10.0; Win64; x64) AppleWebKit/537.36 (KHTML, like Gecko) Chrome/131.0.0.0 Safari/537.36";

/// The directory of the store in a home directory.
pub open spec fn store(home: Seq<char>) -> Seq<char> {
    paths::joined(home, ".wb-switch"@)
}

/// A file of the store.
pub open spec fn store_file(home: Seq<char>, name: Seq<char>) -> Seq<char> {
    paths::joined(store(home), name)
}

fn in_store(home: &str, name: &str) -> (r: String)
    ensures
        r@ == store_file(home@, name@),
{
    paths::join(store_dir(home).as_str(), name)
}

/// The directory of the store in a home directory.
pub fn store_dir(home: &str) -> (r: String)
    ensures
        r@ == store(home@),
{
    paths::join(home, ".wb-switch")
}

pub fn accounts_file(home: &str) -> (r: String)
    ensures
        r@ == store_file(home@, "accounts.json"@),
{
    in_store(home, "accounts.json")
}

pub fn backup_dir(home: &str) -> (r: String)
    ensures
        r@ == store_file(home@, "backups"@),
{
    in_store(home, "backups")
}

pub fn checkin_config_file(home: &str) -> (r: String)
    ensures
        r@ == store_file(home@, "auto_checkin_config.json"@),
{
    in_store(home, "auto_checkin_config.json")
}

pub fn checkin_logs_file(home: &str) -> (r: String)
    ensures
        r@ == store_file(home@, "auto_checkin_logs.json"@),
{
    in_store(home, "auto_checkin_logs.json")
}

pub fn credit_usage_snapshots_file(home: &str) -> (r: String)
    ensures
        r@ == store_file(home@, "credit_usage_snapshots.json"@),
{
    in_store(home, "credit_usage_snapshots.json")
}

pub fn official_usage_cache_file(home: &str) -> (r: String)
    ensures
        r@ == store_file(home@, "official_usage_cache.json"@),
{
    in_store(home, "official_usage_cache.json")
}

pub fn auto_rotate_config_file(home: &str) -> (r: String)
    ensures
        r@ == store_file(home@, "auto_rotate_config.json"@),
{
    in_store(home, "auto_rotate_config.json")
}

pub fn auto_rotate_logs_file(home: &str) -> (r: String)
    ensures
        r@ == store_file(home@, "auto_rotate_logs.json"@),
{
    in_store(home, "auto_rotate_logs.json")
}

pub fn workbuddy_exe_cache_file(home: &str) -> (r: String)
    ensures
        r@ == store_file(home@, "workbuddy_exe.json"@),
{
    in_store(home, "workbuddy_exe.json")
}

pub fn auto_travel_config_file(home: &str) -> (r: String)
    ensures
        r@ == store_file(home@, "auto_travel_config.json"@),
{
    in_store(home, "auto_travel_config.json")
}

pub fn travel_logs_file(home: &str) -> (r: String)
    ensures
        r@ == store_file(home@, "auto_travel_logs.json"@),
{
    in_store(home, "auto_travel_logs.json")
}

/// The program that a cache file names.
pub open spec fn cached_exe(cache: Result<JsonV, Seq<char>>) -> Option<Seq<char>> {
    match cache {
        Ok(v) => account::str_of(v, "exe"@),
        Err(_) => None,
    }
}

/// The program that a cache file's value names.
pub fn exe_of_cache(value: &Json) -> (r: Option<String>)
    ensures
        json::opt_string(r) == account::str_of(value@, "exe"@),
{
    account::get_str(value, "exe")
}

/// The program that a cache file names; a broken or blank one names none.
pub fn parse_workbuddy_exe_cache_json(content: &str) -> (r: Option<String>)
    ensures
        json::opt_string(r) == cached_exe(json::json_of_text(content@)),
{
    match json::parse_json(content) {
        Ok(value) => exe_of_cache(&value),
        Err(_) => None,
    }
}

/// The check-in settings where none were made. The hours are kept for old
/// files; nothing reads them.
pub open spec fn checkin_defaults() -> JsonV {
    JsonV::empty().put("enabled"@, JsonV::Bool(true)).put("start_hour"@, JsonV::Int(6)).put(
        "end_hour"@,
        JsonV::Int(12),
    ).put("keepalive_days"@, JsonV::Int(0)).put("lazy_refresh_hours"@, JsonV::Int(24))
}

/// What is remembered of WorkBuddy's program.
pub fn workbuddy_exe_cache(exe: &str) -> (r: Json)
    ensures
        r@ == JsonV::empty().put("exe"@, JsonV::Str(exe@)),
{
    Json::object().put("exe", Json::text(exe))
}

/// What is remembered of WorkBuddy's program is read back.
pub proof fn exe_cache_is_read_back(exe: Seq<char>)
    requires
        text::trim(exe).len() > 0,
    ensures
        cached_exe(Ok(JsonV::empty().put("exe"@, JsonV::Str(exe)))) == Some(text::trim(exe)),
{
}

pub fn default_checkin_config() -> (r: Json)
    ensures
        r@ == checkin_defaults(),
        r@ is Obj,
{
    Json::object().put("enabled", Json::Bool(true)).put("start_hour", Json::num(6)).put(
        "end_hour",
        Json::num(12),
    ).put("keepalive_days", Json::num(0)).put("lazy_refresh_hours", Json::num(24))
}

/// The settings with one number taken over, where it is an integer.
pub open spec fn take_i64(cfg: JsonV, input: JsonV, key: Seq<char>) -> JsonV {
    match input.get_i64(key) {
        Some(n) => cfg.put(key, JsonV::Int(n)),
        None => cfg,
    }
}

/// The check-in settings that an input makes: known members of the right type
/// are taken over, all others have their defaults.
pub open spec fn checkin_settings(input: JsonV) -> JsonV {
    let cfg = match input.get_bool("enabled"@) {
        Some(b) => checkin_defaults().put("enabled"@, JsonV::Bool(b)),
        None => checkin_defaults(),
    };
    let cfg = take_i64(cfg, input, "start_hour"@);
    let cfg = take_i64(cfg, input, "end_hour"@);
    let cfg = take_i64(cfg, input, "keepalive_days"@);
    take_i64(cfg, input, "lazy_refresh_hours"@)
}

fn take_number(cfg: Json, input: &Json, key: &str) -> (r: Json)
    requires
        cfg@ is Obj,
    ensures
        r@ == take_i64(cfg@, input@, key@),
        r@ is Obj,
{
    match input.get_i64(key) {
        Some(n) => cfg.put(key, Json::num(n)),
        None => cfg,
    }
}

/// The check-in settings that an input makes.
pub fn merge_checkin_config(input: &Json) -> (r: Json)
    ensures
        r@ == checkin_settings(input@),
{
    let cfg: Json = match input.get_bool("enabled") {
        Some(b) => default_checkin_config().put("enabled", Json::Bool(b)),
        None => default_checkin_config(),
    };
    let cfg: Json = take_number(cfg, input, "start_hour");
    let cfg: Json = take_number(cfg, input, "end_hour");
    let cfg: Json = take_number(cfg, input, "keepalive_days");
    take_number(cfg, input, "lazy_refresh_hours")
}

/// Merging settings that were merged before changes nothing.
pub proof fn merging_settings_settles(input: JsonV)
    ensures
        checkin_settings(checkin_settings(input)) == checkin_settings(input),
{
    reveal_strlit("enabled");
    reveal_strlit("start_hour");
    reveal_strlit("end_hour");
    reveal_strlit("keepalive_days");
    reveal_strlit("lazy_refresh_hours");
    assert("enabled"@.len() == 7 && "start_hour"@.len() == 10 && "end_hour"@.len() == 8);
    assert("keepalive_days"@.len() == 14 && "lazy_refresh_hours"@.len() == 18);
    let once = checkin_settings(input);
    let twice = checkin_settings(once);
    assert(once is Obj && twice is Obj);
    assert(once.get_bool("enabled"@) is Some);
    assert(once.get_i64("start_hour"@) is Some);
    assert(once.get_i64("end_hour"@) is Some);
    assert(once.get_i64("keepalive_days"@) is Some);
    assert(once.get_i64("lazy_refresh_hours"@) is Some);
    let m = once->Obj_0;
    assert(m["enabled"@] == JsonV::Bool(once.get_bool("enabled"@)->0));
    assert(m["start_hour"@] == JsonV::Int(once.get_i64("start_hour"@)->0));
    assert(m["end_hour"@] == JsonV::Int(once.get_i64("end_hour"@)->0));
    assert(m["keepalive_days"@] == JsonV::Int(once.get_i64("keepalive_days"@)->0));
    assert(m["lazy_refresh_hours"@] == JsonV::Int(once.get_i64("lazy_refresh_hours"@)->0));
    assert(twice->Obj_0 =~= m);
}

/// The check-in settings in a file's text, if there is a file: what it spells
/// is merged with the defaults, a broken text counts as none.
pub fn load_checkin_config(content: Option<&str>) -> (r: Json)
    ensures
        r@ == (match content {
            Some(t) => match json::json_of_text(t@) {
                Ok(v) => checkin_settings(v),
                Err(_) => checkin_defaults(),
            },
            None => checkin_defaults(),
        }),
{
    match content {
        Some(t) => match json::parse_json(t) {
            Ok(value) => merge_checkin_config(&value),
            Err(_) => default_checkin_config(),
        },
        None => default_checkin_config(),
    }
}

/// The list that a log file's text spells; none where it spells no array.
pub open spec fn list_in(content: Option<Seq<char>>) -> Seq<JsonV> {
    match content {
        Some(t) => match json::json_of_text(t) {
            Ok(JsonV::Arr(s)) => s,
            _ => Seq::empty(),
        },
        None => Seq::empty(),
    }
}

/// The list in a file's text, if there is a file; a broken text or one that
/// spells no array gives none.
pub fn load_list(content: Option<&str>) -> (r: Vec<Json>)
    ensures
        json::list_view(r@) == list_in(json::opt_text(content)),
{
    let none: Vec<Json> = Vec::new();
    assert(json::list_view(none@) =~= Seq::empty());
    match content {
        Some(t) => match json::parse_json(t) {
            Ok(Json::Arr(v)) => v,
            _ => none,
        },
        None => none,
    }
}

/// A time in milliseconds: a number or a numeral, in seconds where it is below
/// ten thousand million. The product is taken in 64 bits.
pub open spec fn time_of(v: Option<JsonV>) -> Option<int> {
    match json::whole_of(v) {
        Some(n) => if n < 10_000_000_000 {
            Some((n as i64).wrapping_mul(1000) as int)
        } else {
            Some(n)
        },
        None => None,
    }
}

/// A time in milliseconds, out of seconds, milliseconds or a numeral.
pub fn norm_ts(v: Option<&Json>) -> (r: Option<i64>)
    ensures
        json::opt_int(r) == time_of(json::opt_view(v)),
{
    match json::whole(v) {
        Some(n) => {
            if n < 10_000_000_000 {
                Some(n.wrapping_mul(1000))
            } else {
                Some(n)
            }
        },
        None => None,
    }
}

/// Whose entry of the check-in log it is: the account's, else that of the name
/// which old entries bear instead. The two kinds never meet.
pub open spec fn log_identity(entry: JsonV) -> Option<Seq<char>> {
    match account::str_of(entry, "accountId"@) {
        Some(id) => Some("account:"@ + id),
        None => match account::str_of(entry, "email"@) {
            Some(e) => Some("legacy:"@ + e),
            None => None,
        },
    }
}

pub fn legacy_checkin_identity(entry: &Json) -> (r: Option<String>)
    ensures
        json::opt_string(r) == log_identity(entry@),
{
    match account::get_str(entry, "accountId") {
        Some(id) => Some(text::concat("account:", id.as_str())),
        None => match account::get_str(entry, "email") {
            Some(e) => Some(text::concat("legacy:", e.as_str())),
            None => None,
        },
    }
}

/// What the thinning of the log looks at in an entry: its time, and for an
/// `already` entry whose it is and of which day.
#[verifier::ext_equal]
pub struct LogKeyV {
    pub ts: Option<int>,
    pub already: Option<(Seq<char>, i32)>,
}

/// What the thinning of the log looks at in an entry.
pub open spec fn log_key(entry: JsonV, days: Map<int, i32>) -> LogKeyV {
    let ts = time_of(entry.get("ts"@));
    LogKeyV {
        ts,
        already: match (ts, log_identity(entry)) {
            (Some(t), Some(who)) => if entry.get_str("result"@) == Some("already"@) && days.contains_key(t) {
                Some((who, days[t]))
            } else {
                None
            },
            _ => None,
        },
    }
}

/// The keys of a log.
pub open spec fn log_keys(logs: Seq<JsonV>, days: Map<int, i32>) -> Seq<LogKeyV> {
    logs.map_values(|e: JsonV| log_key(e, days))
}

/// Entry `j` makes the `already` entry `i` superfluous: it is of the same
/// account and day, and later (by time, then by place).
pub open spec fn supersedes(keys: Seq<LogKeyV>, cutoff: int, j: int, i: int) -> bool {
    &&& keys[i].already is Some
    &&& keys[j].already == keys[i].already
    &&& keys[j].ts->0 >= cutoff
    &&& keys[j].ts->0 > keys[i].ts->0 || (keys[j].ts->0 == keys[i].ts->0 && j > i)
}

/// Entry `i` stays: it has a time within the kept days, and no later `already`
/// entry of the same account and day makes it superfluous.
pub open spec fn stays(keys: Seq<LogKeyV>, cutoff: int, i: int) -> bool {
    &&& keys[i].ts is Some
    &&& keys[i].ts->0 >= cutoff
    &&& forall|j: int| 0 <= j < keys.len() ==> !#[trigger] supersedes(keys, cutoff, j, i)
}

/// The entries before `n` that stay.
pub open spec fn staying(logs: Seq<JsonV>, keys: Seq<LogKeyV>, cutoff: int, n: int) -> Seq<JsonV>
    decreases n,
{
    if n <= 0 {
        Seq::empty()
    } else if stays(keys, cutoff, n - 1) {
        staying(logs, keys, cutoff, n - 1).push(logs[n - 1])
    } else {
        staying(logs, keys, cutoff, n - 1)
    }
}

/// The earliest time that the log keeps.
pub open spec fn log_cutoff(at: int) -> int {
    clock::clamped(at - CHECKIN_LOG_KEEP_DAYS * 86_400_000)
}

/// The check-in log as it is kept: thirty days, of repeated `already` entries
/// only the latest of an account and day, and of all at most the last 500.
pub open spec fn normalized(logs: Seq<JsonV>, days: Map<int, i32>, at: int) -> Seq<JsonV> {
    json::last_n(
        staying(logs, log_keys(logs, days), log_cutoff(at), logs.len() as int),
        CHECKIN_LOG_MAX_RECORDS as int,
    )
}

/// An entry's key as it is computed.
struct LogKey {
    ts: Option<i64>,
    already: Option<(String, i32)>,
}

impl LogKey {
    spec fn view(&self) -> LogKeyV {
        LogKeyV {
            ts: json::opt_int(self.ts),
            already: match self.already {
                Some((s, d)) => Some((s@, d)),
                None => None,
            },
        }
    }
}

fn key_of(entry: &Json, days: &LocalDays) -> (k: LogKey)
    ensures
        k@ == log_key(entry@, days@),
{
    let ts: Option<i64> = norm_ts(entry.get("ts"));
    let is_already: bool = match entry.get_str("result") {
        Some(s) => text::same(s, "already"),
        None => false,
    };
    let already: Option<(String, i32)> = match (ts, legacy_checkin_identity(entry)) {
        (Some(t), Some(who)) => {
            if is_already {
                match days.get(t) {
                    Some(day) => Some((who, day)),
                    None => None,
                }
            } else {
                None
            }
        },
        _ => None,
    };
    LogKey { ts, already }
}

spec fn keys_view(s: Seq<LogKey>) -> Seq<LogKeyV> {
    s.map_values(|k: LogKey| k@)
}

fn entry_supersedes(a: &LogKey, i: usize, b: &LogKey, j: usize, cutoff: i64, Ghost(keys): Ghost<Seq<LogKeyV>>) -> (r:
    bool)
    requires
        0 <= i < keys.len(),
        0 <= j < keys.len(),
        a@ == keys[i as int],
        b@ == keys[j as int],
        a.ts is Some,
        forall|k: int| 0 <= k < keys.len() && (#[trigger] keys[k]).already is Some ==> keys[k].ts is Some,
    ensures
        r == supersedes(keys, cutoff as int, j as int, i as int),
{
    match (&a.already, &b.already, a.ts, b.ts) {
        (Some((who, day)), Some((other, other_day)), Some(t), Some(u)) => {
            text::same(who.as_str(), other.as_str()) && *day == *other_day && u >= cutoff && (u > t || (u == t && j
                > i))
        },
        _ => {
            assert(keys[i as int].already is Some && keys[j as int].already == keys[i as int].already
                ==> keys[j as int].ts is Some);
            false
        },
    }
}

/// The earliest time that the log keeps at a time.
fn cutoff_at(at_ms: i64) -> (c: i64)
    ensures
        c == log_cutoff(at_ms as int),
{
    clock::minus(at_ms, CHECKIN_LOG_KEEP_DAYS * 86_400_000)
}

/// The check-in log as it is kept, by the local days given for its times.
pub fn normalize_with_days(logs: &[Json], days: &LocalDays, at_ms: i64) -> (r: Vec<Json>)
    ensures
        json::list_view(r@) == normalized(json::list_view(logs@), days@, at_ms as int),
{
    let cutoff: i64 = cutoff_at(at_ms);
    let ghost all = json::list_view(logs@);
    let ghost wanted = log_keys(all, days@);
    let mut keys: Vec<LogKey> = Vec::new();
    let mut n: usize = 0;
    while n < logs.len()
        invariant
            n <= logs@.len(),
            all == json::list_view(logs@),
            wanted == log_keys(all, days@),
            keys@.len() == n,
            forall|k: int| 0 <= k < n ==> (#[trigger] keys@[k])@ == wanted[k],
        decreases logs@.len() - n,
    {
        keys.push(key_of(&logs[n], days));
        n += 1;
    }
    let mut kept: Vec<Json> = Vec::new();
    let mut i: usize = 0;
    assert(json::list_view(kept@) =~= Seq::empty());
    while i < logs.len()
        invariant
            i <= logs@.len(),
            all == json::list_view(logs@),
            wanted == log_keys(all, days@),
            keys@.len() == logs@.len(),
            wanted.len() == logs@.len(),
            forall|k: int| 0 <= k < logs@.len() ==> (#[trigger] keys@[k])@ == wanted[k],
            json::list_view(kept@) == staying(all, wanted, cutoff as int, i as int),
        decreases logs@.len() - i,
    {
        assert(keys@[i as int]@ == wanted[i as int]);
        let mut stay: bool = match keys[i].ts {
            Some(t) => t >= cutoff,
            None => false,
        };
        let mut j: usize = 0;
        while stay && j < logs.len()
            invariant
                i < logs@.len(),
                j <= logs@.len(),
                all == json::list_view(logs@),
                wanted == log_keys(all, days@),
                keys@.len() == logs@.len(),
                wanted.len() == logs@.len(),
                forall|k: int| 0 <= k < logs@.len() ==> (#[trigger] keys@[k])@ == wanted[k],
                stay ==> wanted[i as int].ts is Some && wanted[i as int].ts->0 >= cutoff,
                stay ==> forall|k: int| 0 <= k < j ==> !#[trigger] supersedes(wanted, cutoff as int, k, i as int),
                !stay ==> !stays(wanted, cutoff as int, i as int),
            decreases logs@.len() - j + if stay {
                1int
            } else {
                0int
            },
        {
            assert(keys@[i as int]@ == wanted[i as int]);
            assert(keys@[j as int]@ == wanted[j as int]);
            if entry_supersedes(&keys[i], i, &keys[j], j, cutoff, Ghost(wanted)) {
                stay = false;
            }
            j += 1;
        }
        if stay {
            let ghost held = kept@;
            kept.push(logs[i].clone());
            assert(json::list_view(kept@) =~= json::list_view(held).push(all[i as int]));
        }
        i += 1;
    }
    json::keep_last(kept.as_slice(), CHECKIN_LOG_MAX_RECORDS)
}

/// The days are those of the times in a log, in some time zone.
pub open spec fn days_of_log(logs: Seq<JsonV>, days: Map<int, i32>) -> bool {
    &&& clock::days_looked_up(days)
    &&& forall|i: int|
        0 <= i < logs.len() ==> (time_of((#[trigger] logs[i]).get("ts"@)) matches Some(t) ==> (clock::has_day(t) ==> days.contains_key(t)))
}

/// The local days of the times in a log.
pub fn log_days(logs: &[Json]) -> (days: LocalDays)
    ensures
        clock::days_valid(days@),
        days_of_log(json::list_view(logs@), days@),
{
    let ghost all = json::list_view(logs@);
    let mut days: LocalDays = LocalDays::new();
    let mut i: usize = 0;
    while i < logs.len()
        invariant
            i <= logs@.len(),
            all == json::list_view(logs@),
            clock::days_looked_up(days@),
            forall|k: int|
                0 <= k < i ==> (time_of((#[trigger] all[k]).get("ts"@)) matches Some(t) ==> (clock::has_day(t) ==> days@.contains_key(t))),
        decreases logs@.len() - i,
    {
        assert(all[i as int] == logs@[i as int]@);
        match norm_ts(logs[i].get("ts")) {
            Some(t) => {
                let ghost before = days@;
                days.look_up(t);
                proof {
                    clock::others_stay(before, days@, t as int);
                }
            },
            None => {},
        }
        i += 1;
    }
    days
}

/// The check-in log as it is kept, by the local time zone.
pub fn normalize_checkin_logs(logs: &[Json], at_ms: i64) -> (r: Vec<Json>)
    ensures
        exists|days: Map<int, i32>| #[trigger]
            days_of_log(json::list_view(logs@), days) && json::list_view(r@) == normalized(
                json::list_view(logs@),
                days,
                at_ms as int,
            ),
{
    let days: LocalDays = log_days(logs);
    normalize_with_days(logs, &days, at_ms)
}

/// The places before `n` whose entries stay.
spec fn places(keys: Seq<LogKeyV>, cutoff: int, n: int) -> Seq<int>
    decreases n,
{
    if n <= 0 {
        Seq::empty()
    } else if stays(keys, cutoff, n - 1) {
        places(keys, cutoff, n - 1).push(n - 1)
    } else {
        places(keys, cutoff, n - 1)
    }
}

proof fn places_ascend(logs: Seq<JsonV>, keys: Seq<LogKeyV>, cutoff: int, n: int)
    requires
        0 <= n <= logs.len(),
        keys.len() == logs.len(),
    ensures
        places(keys, cutoff, n).len() == staying(logs, keys, cutoff, n).len() <= n,
        forall|k: int|
            0 <= k < places(keys, cutoff, n).len() ==> 0 <= #[trigger] places(keys, cutoff, n)[k] < n && stays(
                keys,
                cutoff,
                places(keys, cutoff, n)[k],
            ) && staying(logs, keys, cutoff, n)[k] == logs[places(keys, cutoff, n)[k]],
        forall|a: int, b: int|
            0 <= a < b < places(keys, cutoff, n).len() ==> #[trigger] places(keys, cutoff, n)[a] < #[trigger] places(
                keys,
                cutoff,
                n,
            )[b],
        places(keys, cutoff, n).len() == n ==> staying(logs, keys, cutoff, n) =~= logs.subrange(0, n),
    decreases n,
{
    if n > 0 {
        places_ascend(logs, keys, cutoff, n - 1);
        let before = places(keys, cutoff, n - 1);
        let now = places(keys, cutoff, n);
        let kept = staying(logs, keys, cutoff, n);
        if stays(keys, cutoff, n - 1) {
            assert forall|k: int| 0 <= k < now.len() implies 0 <= #[trigger] now[k] < n && stays(
                keys,
                cutoff,
                now[k],
            ) && kept[k] == logs[now[k]] by {
                if k < before.len() {
                    assert(now[k] == before[k]);
                }
            }
            assert forall|a: int, b: int| 0 <= a < b < now.len() implies #[trigger] now[a] < #[trigger] now[b] by {
                assert(now[a] == before[a]);
                if b < before.len() {
                    assert(now[b] == before[b]);
                }
            }
        }
    }
}

proof fn all_stay(logs: Seq<JsonV>, keys: Seq<LogKeyV>, cutoff: int, n: int)
    requires
        0 <= n <= logs.len(),
        forall|i: int| 0 <= i < n ==> #[trigger] stays(keys, cutoff, i),
    ensures
        staying(logs, keys, cutoff, n) == logs.subrange(0, n),
    decreases n,
{
    if n > 0 {
        all_stay(logs, keys, cutoff, n - 1);
        assert(stays(keys, cutoff, n - 1));
        assert(logs.subrange(0, n) =~= logs.subrange(0, n - 1).push(logs[n - 1]));
    } else {
        assert(logs.subrange(0, 0) =~= Seq::empty());
    }
}

/// A log that was thinned stays as it is when it is thinned again at the same time.
pub proof fn normalizing_settles(logs: Seq<JsonV>, days: Map<int, i32>, at: int)
    ensures
        normalized(normalized(logs, days, at), days, at) == normalized(logs, days, at),
{
    let keys = log_keys(logs, days);
    let cutoff = log_cutoff(at);
    let n = logs.len() as int;
    let kept = staying(logs, keys, cutoff, n);
    let at_places = places(keys, cutoff, n);
    let out = normalized(logs, days, at);
    let again = log_keys(out, days);
    let shift = kept.len() - out.len();
    places_ascend(logs, keys, cutoff, n);
    assert forall|i: int| 0 <= i < out.len() implies #[trigger] again[i] == keys[at_places[i + shift]] by {
        assert(out[i] == kept[i + shift]);
        assert(kept[i + shift] == logs[at_places[i + shift]]);
    }
    assert forall|i: int| 0 <= i < out.len() implies #[trigger] stays(again, cutoff, i) by {
        let p = at_places[i + shift];
        assert(again[i] == keys[p]);
        assert(stays(keys, cutoff, p));
        assert forall|j: int| 0 <= j < again.len() implies !#[trigger] supersedes(again, cutoff, j, i) by {
            let q = at_places[j + shift];
            assert(again[j] == keys[q]);
            assert(!supersedes(keys, cutoff, q, p));
            if j > i {
                assert(q > p);
            }
        }
    }
    all_stay(out, again, cutoff, out.len() as int);
    assert(out.subrange(0, out.len() as int) =~= out);
}

/// A kept log of the old length is the old log.
proof fn same_length_is_same(logs: Seq<JsonV>, days: Map<int, i32>, at: int)
    ensures
        normalized(logs, days, at).len() <= logs.len(),
        normalized(logs, days, at).len() == logs.len() ==> normalized(logs, days, at) == logs,
{
    let keys = log_keys(logs, days);
    places_ascend(logs, keys, log_cutoff(at), logs.len() as int);
    assert(logs.subrange(0, logs.len() as int) =~= logs);
}

/// What the check-in log's file has to be replaced by.
///
/// `content` is the file's text, if there is a file. Nothing is replaced where
/// there is none, where it spells no array (what cannot be read is not thrown
/// away), or where thinning changes nothing.
pub fn compact_checkin_logs(content: Option<&str>, at_ms: i64) -> (r: Option<Vec<Json>>)
    ensures
        exists|days: Map<int, i32>| #[trigger]
            days_of_log(list_in(json::opt_text(content)), days) && ({
                let logs = list_in(json::opt_text(content));
                let kept = normalized(logs, days, at_ms as int);
                match r {
                    Some(v) => kept != logs && json::list_view(v@) == kept,
                    None => kept == logs,
                }
            }),
{
    let logs: Vec<Json> = load_list(content);
    let days: LocalDays = log_days(logs.as_slice());
    let kept: Vec<Json> = normalize_with_days(logs.as_slice(), &days, at_ms);
    proof {
        same_length_is_same(json::list_view(logs@), days@, at_ms as int);
        assert(json::list_view(kept@).len() == kept@.len());
        assert(json::list_view(logs@).len() == logs@.len());
        assert(days_of_log(json::list_view(logs@), days@));
    }
    if kept.len() == logs.len() {
        None
    } else {
        Some(kept)
    }
}

/// The settings of the automatic rotation where none were made.
pub open spec fn rotate_defaults() -> JsonV {
    JsonV::empty().put("enabled"@, JsonV::Bool(false)).put("check_interval_minutes"@, JsonV::Int(5)).put(
        "cooldown_minutes"@,
        JsonV::Int(120),
    ).put("min_gap_hours"@, JsonV::Int(24)).put("min_urgency_hours"@, JsonV::Int(72)).put(
        "active_guard_minutes"@,
        JsonV::Int(30),
    ).put("min_remaining_credits"@, JsonV::Int(0))
}

pub fn default_auto_rotate_config() -> (r: Json)
    ensures
        r@ == rotate_defaults(),
        r@ is Obj,
{
    Json::object().put("enabled", Json::Bool(false)).put("check_interval_minutes", Json::num(5)).put(
        "cooldown_minutes",
        Json::num(120),
    ).put("min_gap_hours", Json::num(24)).put("min_urgency_hours", Json::num(72)).put(
        "active_guard_minutes",
        Json::num(30),
    ).put("min_remaining_credits", Json::num(0))
}

/// Settings in a file's text laid over their defaults; a text that spells no
/// object changes nothing.
pub open spec fn overlaid(defaults: JsonV, content: Option<Seq<char>>) -> JsonV {
    match content {
        Some(t) => match json::json_of_text(t) {
            Ok(v) => defaults.overlay(v),
            Err(_) => defaults,
        },
        None => defaults,
    }
}

fn overlay_content(defaults: Json, content: Option<&str>) -> (r: Json)
    requires
        defaults@ is Obj,
    ensures
        r@ == overlaid(defaults@, json::opt_text(content)),
{
    match content {
        Some(t) => match json::parse_json(t) {
            Ok(value) => defaults.overlay(&value),
            Err(_) => defaults,
        },
        None => defaults,
    }
}

/// The settings of the automatic rotation, by the text of their file.
pub fn load_auto_rotate_config(content: Option<&str>) -> (r: Json)
    ensures
        r@ == overlaid(rotate_defaults(), json::opt_text(content)),
{
    overlay_content(default_auto_rotate_config(), content)
}

/// The settings of the automatic rotation that an input makes: known members are
/// taken over, all others have their defaults.
pub open spec fn rotate_settings(input: JsonV) -> JsonV {
    rotate_defaults().take(input, "enabled"@).take(input, "check_interval_minutes"@).take(
        input,
        "cooldown_minutes"@,
    ).take(input, "min_gap_hours"@).take(input, "min_urgency_hours"@).take(input, "active_guard_minutes"@).take(
        input,
        "min_remaining_credits"@,
    )
}

/// The settings of the automatic rotation to be saved: known members are taken
/// over, all others have their defaults.
pub fn save_auto_rotate_config(cfg: &Json) -> (r: Json)
    ensures
        r@ == rotate_settings(cfg@),
{
    default_auto_rotate_config().take(cfg, "enabled").take(cfg, "check_interval_minutes").take(
        cfg,
        "cooldown_minutes",
    ).take(cfg, "min_gap_hours").take(cfg, "min_urgency_hours").take(cfg, "active_guard_minutes").take(
        cfg,
        "min_remaining_credits",
    )
}

/// The rotation log to be saved: the last 200 entries.
pub fn save_rotate_logs(logs: &[Json]) -> (r: Vec<Json>)
    ensures
        json::list_view(r@) == json::last_n(json::list_view(logs@), ROTATE_LOG_MAX_RECORDS as int),
{
    json::keep_last(logs, ROTATE_LOG_MAX_RECORDS)
}

fn with_entry(logs: &[Json], entry: &Json) -> (r: Vec<Json>)
    ensures
        json::list_view(r@) == json::list_view(logs@).push(entry@),
{
    let mut all: Vec<Json> = json::clone_slice(logs);
    let ghost held = all@;
    all.push(entry.clone());
    assert(json::list_view(all@) =~= json::list_view(held).push(entry@));
    all
}

/// The rotation log with one more entry, as it is saved.
pub fn add_rotate_log(logs: &[Json], entry: &Json) -> (r: Vec<Json>)
    ensures
        json::list_view(r@) == json::last_n(
            json::list_view(logs@).push(entry@),
            ROTATE_LOG_MAX_RECORDS as int,
        ),
{
    save_rotate_logs(with_entry(logs, entry).as_slice())
}

/// The check-in log with one more entry, as it is saved, by the local time zone.
pub fn add_checkin_log(logs: &[Json], entry: &Json, at_ms: i64) -> (r: Vec<Json>)
    ensures
        exists|days: Map<int, i32>| #[trigger]
            days_of_log(json::list_view(logs@).push(entry@), days) && json::list_view(r@) == normalized(
                json::list_view(logs@).push(entry@),
                days,
                at_ms as int,
            ),
{
    normalize_checkin_logs(with_entry(logs, entry).as_slice(), at_ms)
}

/// The travel settings where none were made.
pub open spec fn travel_defaults() -> JsonV {
    JsonV::empty().put("enabled"@, JsonV::Bool(true)).put("depart_time"@, JsonV::Str("08:00"@)).put(
        "claim_time"@,
        JsonV::Str("20:00"@),
    )
}

pub fn default_travel_config() -> (r: Json)
    ensures
        r@ == travel_defaults(),
        r@ is Obj,
{
    Json::object().put("enabled", Json::Bool(true)).put("depart_time", Json::text("08:00")).put(
        "claim_time",
        Json::text("20:00"),
    )
}

/// The travel settings, by the text of their file.
pub fn load_travel_config(content: Option<&str>) -> (r: Json)
    ensures
        r@ == overlaid(travel_defaults(), json::opt_text(content)),
{
    overlay_content(default_travel_config(), content)
}

/// The travel settings that an input makes: known members are taken over, all
/// others have their defaults.
pub open spec fn travel_settings(input: JsonV) -> JsonV {
    travel_defaults().take(input, "enabled"@).take(input, "depart_time"@).take(input, "claim_time"@)
}

/// The travel settings to be saved: known members are taken over, all others
/// have their defaults.
pub fn save_travel_config(cfg: &Json) -> (r: Json)
    ensures
        r@ == travel_settings(cfg@),
{
    default_travel_config().take(cfg, "enabled").take(cfg, "depart_time").take(cfg, "claim_time")
}

/// The travel log with one more entry, as it is saved: the last 200 entries.
pub fn add_travel_log(logs: &[Json], entry: &Json) -> (r: Vec<Json>)
    ensures
        json::list_view(r@) == json::last_n(
            json::list_view(logs@).push(entry@),
            TRAVEL_LOG_MAX_RECORDS as int,
        ),
{
    json::keep_last(with_entry(logs, entry).as_slice(), TRAVEL_LOG_MAX_RECORDS)
}

/// Proof that a flag was taken. Whoever holds it gives it back with `release`.
#[derive(Debug)]
pub struct RunFlagGuard {
    held: bool,
}

impl RunFlagGuard {
    /// Takes a flag that is free; nothing where it is taken already.
    pub fn try_acquire(flag: &mut bool) -> (r: Option<RunFlagGuard>)
        ensures
            *final(flag),
            r is Some <==> !*old(flag),
    {
        if *flag {
            None
        } else {
            *flag = true;
            Some(RunFlagGuard { held: true })
        }
    }

    /// Gives the flag back.
    pub fn release(self, flag: &mut bool)
        ensures
            !*final(flag),
    {
        *flag = false;
    }
}

/// The current time in milliseconds since the epoch.
pub fn now_ms() -> (ms: i64)
    ensures
        exists|t: Option<(u64, u32)>| ms == clock::epoch_millis(t),
{
    let t: Option<(u64, u32)> = clock::since_epoch();
    clock::millis_since(t)
}

/// The current time in seconds since the epoch.
pub fn now_secs() -> (s: i64)
    ensures
        exists|t: Option<(u64, u32)>| s == clock::epoch_seconds(t),
{
    let t: Option<(u64, u32)> = clock::since_epoch();
    clock::seconds_since(t)
}

/// An answer that says that the path is not there.
pub open spec fn route_missing(resp: JsonV) -> bool {
    resp.get_i64("code"@) == Some(404int)
}

/// A time of the world as it is written into file names.
pub open spec fn iso_form(wall: Seq<char>) -> Seq<char> {
    wall + "Z"@
}

/// A time of the world as it is written into file names.
pub fn iso_of(wall: &str) -> (r: String)
    ensures
        r@ == iso_form(wall@),
{
    text::concat(wall, "Z")
}

/// The present time of the world as it is written into file names.
pub fn utc_iso() -> (r: String)
    ensures
        exists|wall: Seq<char>| #[trigger] clock::time_in_writing(wall) && r@ == iso_form(wall),
{
    let wall: String = clock::utc_wall_text();
    assert(clock::time_in_writing(wall@));
    iso_of(wall.as_str())
}

/// The present local time, hour and minute.
pub fn local_hhmm() -> (r: String)
    ensures
        clock::hour_and_minute(r@),
{
    clock::local_clock_text()
}

/// Whether an answer says that the path is not there. Nothing else lets the
/// next path be tried: a refusal or a failure must be seen as it is.
pub fn is_route_missing(resp: &Json) -> (b: bool)
    ensures
        b == route_missing(resp@),
{
    match resp.get_i64("code") {
        Some(c) => c == 404,
        None => false,
    }
}

/// The answer in a response: what its body spells; where that is no JSON,
/// `Null` for a success and the status with the head of the body for a failure.
pub open spec fn answer(status: int, body: Seq<char>) -> JsonV {
    match json::json_of_text(body) {
        Ok(v) => v,
        Err(_) => if 200 <= status < 300 {
            JsonV::Null
        } else {
            JsonV::empty().put("code"@, JsonV::Int(status)).put("message"@, JsonV::Str(text::head(body, 500)))
        },
    }
}

/// The answer in a response.
pub fn response_answer(status: u16, body: &str) -> (r: Json)
    ensures
        r@ == answer(status as int, body@),
{
    match json::parse_json(body) {
        Ok(v) => v,
        Err(_) => {
            if 200 <= status && status < 300 {
                Json::Null
            } else {
                Json::object().put("code", Json::num(status as i64)).put(
                    "message",
                    Json::Str(text::head_of(body, 500)),
                )
            }
        },
    }
}

/// The answer that stands for a request which did not go through.
pub fn transport_failure(reason: &str) -> (r: Json)
    ensures
        r@ == JsonV::empty().put("code"@, JsonV::Int(-1)).put("message"@, JsonV::Str(reason@)),
{
    Json::object().put("code", Json::num(-1)).put("message", Json::text(reason))
}

/// A time of day `H:M` in minutes, where hour and minute are in range.
pub open spec fn clock_minutes(s: Seq<char>) -> Option<int> {
    let t = text::trim(s);
    let k = text::until(t, |x: char| x == ':');
    if k >= t.len() {
        None
    } else {
        match (
            text::unsigned_value(t.subrange(0, k)),
            text::unsigned_value(t.subrange(k + 1, t.len() as int)),
        ) {
            (Some(h), Some(m)) => if h < 24 && m < 60 {
                Some(h * 60 + m)
            } else {
                None
            },
            _ => None,
        }
    }
}

/// A time of day `H:M` in minutes, where hour and minute are in range.
pub fn parse_clock(s: &str) -> (r: Option<u32>)
    ensures
        match r {
            Some(m) => clock_minutes(s@) == Some(m as int) && m < 1440,
            None => clock_minutes(s@) is None,
        },
{
    let chars: Vec<char> = text::chars_of(s);
    let t: &[char] = text::trim_slice(chars.as_slice());
    let k: usize = text::until_char(t, ':');
    if k == t.len() {
        return None;
    }
    let hours: Option<u64> = text::parse_digits(vstd::slice::slice_subrange(t, 0, k));
    let minutes: Option<u64> = text::parse_digits(vstd::slice::slice_subrange(t, k + 1, t.len()));
    match (hours, minutes) {
        (Some(h), Some(m)) => {
            if h < 24 && m < 60 {
                Some((h * 60 + m) as u32)
            } else {
                None
            }
        },
        _ => None,
    }
}

/// The kept log has at most 500 entries, all of them entries of the log, in their
/// order, and of the last thirty days.
pub proof fn kept_log_is_bounded(logs: Seq<JsonV>, days: Map<int, i32>, at: int)
    ensures
        normalized(logs, days, at).len() <= CHECKIN_LOG_MAX_RECORDS,
        forall|k: int|
            0 <= k < normalized(logs, days, at).len() ==> logs.contains(#[trigger] normalized(logs, days, at)[k])
                && time_of(normalized(logs, days, at)[k].get("ts"@)) is Some
                && time_of(normalized(logs, days, at)[k].get("ts"@))->0 >= log_cutoff(at),
{
    let keys = log_keys(logs, days);
    let cutoff = log_cutoff(at);
    let n = logs.len() as int;
    let kept = staying(logs, keys, cutoff, n);
    let out = normalized(logs, days, at);
    let shift = kept.len() - out.len();
    places_ascend(logs, keys, cutoff, n);
    assert forall|k: int| 0 <= k < out.len() implies logs.contains(#[trigger] out[k]) && time_of(
        out[k].get("ts"@),
    ) is Some && time_of(out[k].get("ts"@))->0 >= cutoff by {
        let p = places(keys, cutoff, n)[k + shift];
        assert(out[k] == kept[k + shift]);
        assert(kept[k + shift] == logs[p]);
        assert(stays(keys, cutoff, p));
        assert(keys[p] == log_key(logs[p], days));
    }
}

proof fn staying_has(logs: Seq<JsonV>, keys: Seq<LogKeyV>, cutoff: int, n: int, i: int)
    requires
        0 <= i < n <= logs.len(),
        keys.len() == logs.len(),
        stays(keys, cutoff, i),
    ensures
        staying(logs, keys, cutoff, n).contains(logs[i]),
    decreases n,
{
    let rest = staying(logs, keys, cutoff, n - 1);
    if i < n - 1 {
        staying_has(logs, keys, cutoff, n - 1, i);
        let k = choose|k: int| 0 <= k < rest.len() && rest[k] == logs[i];
        assert(staying(logs, keys, cutoff, n)[k] == logs[i]);
    } else {
        assert(staying(logs, keys, cutoff, n)[rest.len() as int] == logs[i]);
    }
}

/// An entry before the last of `n` is of the account and day of entry `i`.
spec fn rival(keys: Seq<LogKeyV>, cutoff: int, i: int, n: int, j: int) -> bool {
    0 <= j < n - 1 && keys[j].already == keys[i].already && keys[j].ts->0 >= cutoff
}

/// Of the entries before `n`, the latest `already` entry of the account and day of
/// entry `i`.
proof fn latest_already(keys: Seq<LogKeyV>, cutoff: int, i: int, n: int) -> (best: int)
    requires
        0 <= i < n <= keys.len(),
        keys[i].already is Some,
        keys[i].ts->0 >= cutoff,
    ensures
        0 <= best < n,
        keys[best].already == keys[i].already,
        keys[best].ts->0 >= cutoff,
        forall|j: int| 0 <= j < n ==> !#[trigger] supersedes(keys, cutoff, j, best),
    decreases n,
{
    let alone = i == n - 1 && !exists|j: int| rival(keys, cutoff, i, n, j);
    let before = if alone {
        i
    } else if i == n - 1 {
        latest_already(keys, cutoff, choose|j: int| rival(keys, cutoff, i, n, j), n - 1)
    } else {
        latest_already(keys, cutoff, i, n - 1)
    };
    let best = if keys[n - 1].already == keys[i].already && keys[n - 1].ts->0 >= keys[before].ts->0 {
        n - 1
    } else {
        before
    };
    assert forall|j: int| 0 <= j < n implies !#[trigger] supersedes(keys, cutoff, j, best) by {
        if j < n - 1 {
            assert(alone ==> !rival(keys, cutoff, i, n, j));
            assert(!alone ==> !supersedes(keys, cutoff, j, before));
        }
    }
    best
}

/// Thinning drops nothing but repeats: an entry of the last thirty days is kept,
/// or an `already` entry of its account and day is kept in its place. (A log of
/// more than 500 entries loses its first ones besides.)
pub proof fn only_repeats_are_dropped(logs: Seq<JsonV>, days: Map<int, i32>, at: int, i: int)
    requires
        0 <= i < logs.len() <= CHECKIN_LOG_MAX_RECORDS,
        log_key(logs[i], days).ts is Some,
        log_key(logs[i], days).ts->0 >= log_cutoff(at),
    ensures
        normalized(logs, days, at).contains(logs[i]) || (log_key(logs[i], days).already is Some && exists|j: int|
            0 <= j < logs.len() && #[trigger] log_key(logs[j], days).already == log_key(logs[i], days).already
                && normalized(logs, days, at).contains(logs[j])),
{
    let keys = log_keys(logs, days);
    let cutoff = log_cutoff(at);
    let n = logs.len() as int;
    places_ascend(logs, keys, cutoff, n);
    let kept = staying(logs, keys, cutoff, n);
    assert(normalized(logs, days, at) =~= kept);
    assert(keys[i] == log_key(logs[i], days));
    if keys[i].already is Some {
        let best = latest_already(keys, cutoff, i, n);
        assert(keys[best] == log_key(logs[best], days));
        staying_has(logs, keys, cutoff, n, best);
    } else {
        staying_has(logs, keys, cutoff, n, i);
    }
}

/// Only known members are saved, and all of them are: the settings that any input
/// makes have the members of the defaults.
pub proof fn saved_settings_have_known_members(input: JsonV, key: Seq<char>)
    ensures
        checkin_settings(input).get(key) is Some <==> checkin_defaults().get(key) is Some,
        rotate_settings(input).get(key) is Some <==> rotate_defaults().get(key) is Some,
        travel_settings(input).get(key) is Some <==> travel_defaults().get(key) is Some,
{
}

} // verus!
