//! What an account has left: the requests that ask for its packages, and what
//! their answers say.
use vstd::prelude::*;
use crate::account;
use crate::clock;
use crate::clock::Wall;
use crate::config;
use crate::json;
use crate::json::{Json, JsonV};
use crate::numbers;
use crate::refresh;
use crate::text;
use crate::text::same;
use crate::textmap::TextMap;
use crate::variant;
use crate::variant::WbVariant;

verus! {

/// The end of the path of the older request for packages.
pub const USER_RESOURCE_SUFFIX: &'static str = "/get-user-resource";

/// The address of the web client.
pub const WORKBUDDY_WEB_ENDPOINT: &'static str = "https://www.workbuddy.cn";

/// The path of the summary of packages.
pub const RESOURCE_SUMMARY_PATH: &'static str = "/billing/meter/get-user-resource-summary";

/// The path of the paid packages.
pub const RESOURCE_PAID_PACKAGES_PATH: &'static str = "/billing/meter/get-user-resource-paid-packages";

/// The path of the free packages.
pub const RESOURCE_FREE_PACKAGES_PATH: &'static str = "/billing/meter/get-user-resource-free-packages";

/// The product that the older request asks for.
pub const PRODUCT_CODE: &'static str = "p_tcaca";

/// A package that ends within this time, seven days, ends soon.
pub const EXPIRING_SOON_MS: i64 = 604_800_000;

/// An end that lies this much, 365 days, behind that of the cycle is a placeholder.
pub const EXPIRY_CYCLE_OVERRIDE_MS: i64 = 31_536_000_000;

/// An end that lies further ahead than this, 730 days, is none.
pub const FAR_FUTURE_EXPIRY_MS: i64 = 63_072_000_000;

/// The texts of a list.
pub open spec fn texts(s: Seq<&str>) -> Seq<Seq<char>> {
    Seq::new(s.len(), |i: int| s[i]@)
}

/// The first of the members named, from the name at `i` on.
pub open spec fn first_from(v: JsonV, keys: Seq<Seq<char>>, i: int) -> Option<JsonV>
    decreases keys.len() - i,
{
    if i < 0 || i >= keys.len() {
        None
    } else {
        match v.get(keys[i]) {
            Some(x) => Some(x),
            None => first_from(v, keys, i + 1),
        }
    }
}

/// The first of the members named.
pub fn first_value<'a>(v: &'a Json, keys: &[&str]) -> (r: Option<&'a Json>)
    ensures
        json::opt_view(r) == first_from(v@, texts(keys@), 0),
{
    let ghost names = texts(keys@);
    let mut i: usize = 0;
    while i < keys.len()
        invariant
            i <= keys@.len(),
            names == texts(keys@),
            first_from(v@, names, 0) == first_from(v@, names, i as int),
        decreases keys@.len() - i,
    {
        let x: Option<&Json> = v.get(keys[i]);
        if x.is_some() {
            return x;
        }
        i += 1;
    }
    None
}

/// The first of the members named that is a number or spells one, from the name at `i` on.
pub open spec fn number_from(v: JsonV, keys: Seq<Seq<char>>, i: int) -> Option<JsonV>
    decreases keys.len() - i,
{
    if i < 0 || i >= keys.len() {
        None
    } else {
        match numbers::number_of(v.get(keys[i])) {
            Some(x) => Some(x),
            None => number_from(v, keys, i + 1),
        }
    }
}

/// The first of the members named that is a number or spells one.
pub fn first_number(v: &Json, keys: &[&str]) -> (r: Option<Json>)
    ensures
        account::opt_json(r) == number_from(v@, texts(keys@), 0),
{
    let ghost names = texts(keys@);
    let mut i: usize = 0;
    while i < keys.len()
        invariant
            i <= keys@.len(),
            names == texts(keys@),
            number_from(v@, names, 0) == number_from(v@, names, i as int),
        decreases keys@.len() - i,
    {
        let x: Option<Json> = numbers::number(v.get(keys[i]));
        if x.is_some() {
            return x;
        }
        i += 1;
    }
    None
}

/// How a time was given.
pub enum TimeReading {
    /// Not at all.
    Nothing,
    /// By a number that is no plain integer: seconds where it lies within ten
    /// billion of zero, else milliseconds, rounded.
    Number(Json),
    /// By what local clocks show.
    Local(Wall),
    /// By its instant.
    At(i64),
}

/// How a time was given.
pub enum TimeReadingV {
    Nothing,
    Number(JsonV),
    Local(Wall),
    At(int),
}

impl TimeReading {
    pub open spec fn view(&self) -> TimeReadingV {
        match self {
            TimeReading::Nothing => TimeReadingV::Nothing,
            TimeReading::Number(j) => TimeReadingV::Number(j@),
            TimeReading::Local(w) => TimeReadingV::Local(*w),
            TimeReading::At(t) => TimeReadingV::At(*t as int),
        }
    }
}

/// The time that a text gives: RFC 3339, local date and time, or a local date,
/// which means the last second of the day.
pub open spec fn text_time(s: Seq<char>) -> TimeReadingV {
    match clock::instant_of_rfc3339(s) {
        Some(t) => TimeReadingV::At(t as int),
        None => match clock::wall_of_text(s, "%Y-%m-%d %H:%M:%S"@) {
            Some(w) => TimeReadingV::Local(w),
            None => match clock::wall_of_text(s, "%Y-%m-%d %H:%M:%S%.f"@) {
                Some(w) => TimeReadingV::Local(w),
                None => match clock::day_of_text(s) {
                    Some(d) => TimeReadingV::Local(clock::wall_on(d, 86_399_000)),
                    None => TimeReadingV::Nothing,
                },
            },
        },
    }
}

/// The time that a value gives.
pub open spec fn time_reading(v: Option<JsonV>) -> TimeReadingV {
    match numbers::number_of(v) {
        Some(JsonV::Int(n)) => if -10_000_000_000 < n < 10_000_000_000 {
            TimeReadingV::At(n * 1000)
        } else if -json::EXACT_INT <= n <= json::EXACT_INT {
            TimeReadingV::At(n)
        } else {
            TimeReadingV::Number(JsonV::Int(n))
        },
        Some(x) => TimeReadingV::Number(x),
        None => match v {
            Some(JsonV::Str(s)) => if text::trim(s).len() > 0 {
                text_time(text::trim(s))
            } else {
                TimeReadingV::Nothing
            },
            _ => TimeReadingV::Nothing,
        },
    }
}

fn read_text_time(s: &str) -> (r: TimeReading)
    ensures
        r@ == text_time(s@),
{
    match clock::parse_rfc3339(s) {
        Some(t) => TimeReading::At(t),
        None => match clock::parse_wall(s, "%Y-%m-%d %H:%M:%S") {
            Some(w) => TimeReading::Local(w),
            None => match clock::parse_wall(s, "%Y-%m-%d %H:%M:%S%.f") {
                Some(w) => TimeReading::Local(w),
                None => match clock::parse_day(s) {
                    Some(d) => TimeReading::Local(clock::wall_at_time(d, 86_399_000)),
                    None => TimeReading::Nothing,
                },
            },
        },
    }
}

/// The time that a value gives.
pub fn read_time(v: Option<&Json>) -> (r: TimeReading)
    ensures
        r@ == time_reading(json::opt_view(v)),
{
    match numbers::number(v) {
        Some(x) => match x {
            Json::Int(n) => {
                if -10_000_000_000 < n && n < 10_000_000_000 {
                    TimeReading::At(n as i64 * 1000)
                } else if -9_007_199_254_740_992 <= n && n <= 9_007_199_254_740_992 {
                    TimeReading::At(n as i64)
                } else {
                    TimeReading::Number(x)
                }
            },
            _ => TimeReading::Number(x),
        },
        None => match v {
            Some(j) => match j.as_str() {
                Some(s) => {
                    let t: String = text::trimmed(s);
                    if t.as_str().is_empty() {
                        TimeReading::Nothing
                    } else {
                        read_text_time(t.as_str())
                    }
                },
                None => TimeReading::Nothing,
            },
            None => TimeReading::Nothing,
        },
    }
}

/// The instant that a value gives, given what a number that is no plain integer
/// rounds to. Local times go by the machine's time zone.
pub fn parse_timestamp_ms(v: Option<&Json>, rounded: Option<i64>) -> (r: Option<i64>)
    ensures
        match time_reading(json::opt_view(v)) {
            TimeReadingV::Nothing => r is None,
            TimeReadingV::Number(_) => r == rounded,
            TimeReadingV::Local(w) => r matches Some(t) ==> clock::may_read(t as int, w),
            TimeReadingV::At(t) => json::opt_int(r) == Some(t),
        },
{
    match read_time(v) {
        TimeReading::Nothing => None,
        TimeReading::Number(_) => rounded,
        TimeReading::Local(w) => clock::local_time(w),
        TimeReading::At(t) => Some(t),
    }
}

/// The value that a path leads to, from its name at `i` on.
pub open spec fn at_path(v: JsonV, path: Seq<Seq<char>>, i: int) -> Option<JsonV>
    decreases path.len() - i,
{
    if i < 0 || i >= path.len() {
        Some(v)
    } else {
        match v.get(path[i]) {
            Some(x) => at_path(x, path, i + 1),
            None => None,
        }
    }
}

fn value_at_path<'a>(v: &'a Json, path: &[&str]) -> (r: Option<&'a Json>)
    ensures
        json::opt_view(r) == at_path(v@, texts(path@), 0),
{
    let ghost names = texts(path@);
    let mut here: &Json = v;
    let mut i: usize = 0;
    while i < path.len()
        invariant
            i <= path@.len(),
            names == texts(path@),
            at_path(v@, names, 0) == at_path(here@, names, i as int),
        decreases path@.len() - i,
    {
        match here.get(path[i]) {
            Some(x) => {
                here = x;
            },
            None => {
                return None;
            },
        }
        i += 1;
    }
    Some(here)
}

/// Where an answer may hold its list, by the list's two names.
pub open spec fn list_paths(upper: Seq<char>, lower: Seq<char>) -> Seq<Seq<Seq<char>>> {
    seq![
        seq!["data"@, upper],
        seq!["data"@, "data"@, upper],
        seq!["data"@, "Response"@, "Data"@, upper],
        seq!["data"@, "data"@, "Response"@, "Data"@, upper],
        seq!["data"@, lower],
        seq!["data"@, "data"@, lower],
    ]
}

/// The list that the first fitting path, from that at `i` on, leads to.
pub open spec fn list_from(v: JsonV, paths: Seq<Seq<Seq<char>>>, i: int) -> Option<Seq<JsonV>>
    decreases paths.len() - i,
{
    if i < 0 || i >= paths.len() {
        None
    } else {
        match at_path(v, paths[i], 0) {
            Some(JsonV::Arr(s)) => Some(s),
            _ => list_from(v, paths, i + 1),
        }
    }
}

/// The list of an answer, by the list's two names.
pub open spec fn listed(v: JsonV, upper: Seq<char>, lower: Seq<char>) -> Option<Seq<JsonV>> {
    list_from(v, list_paths(upper, lower), 0)
}

fn try_path<'a>(v: &'a Json, path: &[&str]) -> (r: Option<&'a Vec<Json>>)
    ensures
        match r {
            Some(l) => at_path(v@, texts(path@), 0) == Some(JsonV::Arr(json::list_view(l@))),
            None => !(at_path(v@, texts(path@), 0) matches Some(JsonV::Arr(_))),
        },
{
    match value_at_path(v, path) {
        Some(x) => x.as_arr(),
        None => None,
    }
}

fn list_in<'a>(v: &'a Json, upper: &str, lower: &str) -> (r: Option<&'a Vec<Json>>)
    ensures
        match r {
            Some(l) => listed(v@, upper@, lower@) == Some(json::list_view(l@)),
            None => listed(v@, upper@, lower@) is None,
        },
{
    let ghost paths = list_paths(upper@, lower@);
    let a: Vec<&str> = vec!["data", upper];
    assert(texts(a@) =~= paths[0]);
    let b: Vec<&str> = vec!["data", "data", upper];
    assert(texts(b@) =~= paths[1]);
    let c: Vec<&str> = vec!["data", "Response", "Data", upper];
    assert(texts(c@) =~= paths[2]);
    let d: Vec<&str> = vec!["data", "data", "Response", "Data", upper];
    assert(texts(d@) =~= paths[3]);
    let e: Vec<&str> = vec!["data", lower];
    assert(texts(e@) =~= paths[4]);
    let f: Vec<&str> = vec!["data", "data", lower];
    assert(texts(f@) =~= paths[5]);
    proof {
        reveal_with_fuel(list_from, 8);
    }
    let r: Option<&Vec<Json>> = try_path(v, a.as_slice());
    if r.is_some() {
        return r;
    }
    let r: Option<&Vec<Json>> = try_path(v, b.as_slice());
    if r.is_some() {
        return r;
    }
    let r: Option<&Vec<Json>> = try_path(v, c.as_slice());
    if r.is_some() {
        return r;
    }
    let r: Option<&Vec<Json>> = try_path(v, d.as_slice());
    if r.is_some() {
        return r;
    }
    let r: Option<&Vec<Json>> = try_path(v, e.as_slice());
    if r.is_some() {
        return r;
    }
    try_path(v, f.as_slice())
}

/// The list, or the empty one.
pub open spec fn or_none(o: Option<Seq<JsonV>>) -> Seq<JsonV> {
    match o {
        Some(s) => s,
        None => Seq::empty(),
    }
}

fn copied(o: Option<&Vec<Json>>) -> (r: Vec<Json>)
    ensures
        json::list_view(r@) == (match o {
            Some(l) => json::list_view(l@),
            None => Seq::empty(),
        }),
{
    match o {
        Some(l) => json::clone_slice(l.as_slice()),
        None => {
            let r: Vec<Json> = Vec::new();
            assert(json::list_view(r@) =~= Seq::empty());
            r
        },
    }
}

/// The packages that an answer to a request for packages lists.
pub fn resource_accounts(response: &Json) -> (r: Vec<Json>)
    ensures
        json::list_view(r@) == or_none(listed(response@, "Accounts"@, "accounts"@)),
{
    copied(list_in(response, "Accounts", "accounts"))
}

/// The packages that a summary lists.
pub fn resource_packages(response: &Json) -> (r: Vec<Json>)
    ensures
        json::list_view(r@) == or_none(listed(response@, "Packages"@, "packages"@)),
{
    copied(list_in(response, "Packages", "packages"))
}

/// Whether an answer to a request for packages has a list at all.
pub fn has_resource_accounts(response: &Json) -> (b: bool)
    ensures
        b == listed(response@, "Accounts"@, "accounts"@) is Some,
{
    list_in(response, "Accounts", "accounts").is_some()
}

/// Whether a summary has a list at all.
pub fn has_resource_packages(response: &Json) -> (b: bool)
    ensures
        b == listed(response@, "Packages"@, "packages"@) is Some,
{
    list_in(response, "Packages", "packages").is_some()
}

/// When a package ends: with its deductions, but with its cycle where that ends
/// much earlier, and never where the end is too far ahead.
pub open spec fn expiry(deduction: Option<int>, cycle: Option<int>, now: int) -> Option<int> {
    let end = match (deduction, cycle) {
        (Some(d), Some(c)) => if clock::clamped(d - c) > EXPIRY_CYCLE_OVERRIDE_MS {
            Some(c)
        } else {
            Some(d)
        },
        (Some(d), None) => Some(d),
        (None, c) => c,
    };
    match end {
        Some(t) => if clock::clamped(t - now) <= FAR_FUTURE_EXPIRY_MS {
            Some(t)
        } else {
            None
        },
        None => None,
    }
}

/// When a package ends, by the ends of its deductions and of its cycle.
pub fn resolve_expire_at(deduction: Option<i64>, cycle: Option<i64>, now: i64) -> (r: Option<i64>)
    ensures
        json::opt_int(r) == expiry(json::opt_int(deduction), json::opt_int(cycle), now as int),
{
    let end: Option<i64> = match (deduction, cycle) {
        (Some(d), Some(c)) => {
            if clock::minus(d, c) > EXPIRY_CYCLE_OVERRIDE_MS {
                Some(c)
            } else {
                Some(d)
            }
        },
        (Some(d), None) => Some(d),
        (None, c) => c,
    };
    match end {
        Some(t) => {
            if clock::minus(t, now) <= FAR_FUTURE_EXPIRY_MS {
                Some(t)
            } else {
                None
            }
        },
        None => None,
    }
}

/// Where a package says when its deductions end.
pub open spec fn deduction_keys() -> Seq<Seq<char>> {
    seq!["DeductionEndTime"@, "deductionEndTime"@, "ExpiredTime"@, "expiredTime"@]
}

/// Where a package says when its cycle ends.
pub open spec fn cycle_keys() -> Seq<Seq<char>> {
    seq!["CycleEndTime"@, "cycleEndTime"@]
}

/// What a package says of the end of its deductions.
pub fn deduction_end(raw: &Json) -> (r: Option<&Json>)
    ensures
        json::opt_view(r) == first_from(raw@, deduction_keys(), 0),
{
    let keys: Vec<&str> = vec!["DeductionEndTime", "deductionEndTime", "ExpiredTime", "expiredTime"];
    assert(texts(keys@) =~= deduction_keys());
    first_value(raw, keys.as_slice())
}

/// What a package says of the end of its cycle.
pub fn cycle_end(raw: &Json) -> (r: Option<&Json>)
    ensures
        json::opt_view(r) == first_from(raw@, cycle_keys(), 0),
{
    let keys: Vec<&str> = vec!["CycleEndTime", "cycleEndTime"];
    assert(texts(keys@) =~= cycle_keys());
    first_value(raw, keys.as_slice())
}

/// Where a package says how large it is.
pub open spec fn total_keys() -> Seq<Seq<char>> {
    seq![
        "CycleCapacitySizePrecise"@,
        "CycleCapacitySize"@,
        "CycleTotalCapacity"@,
        "CapacitySizePrecise"@,
        "CapacitySize"@,
        "SlicePeriodCapacitySizePrecise"@,
        "SlicePeriodCapacitySize"@,
    ]
}

/// Where a package says how much is left.
pub open spec fn remaining_keys() -> Seq<Seq<char>> {
    seq![
        "CycleCapacityRemainPrecise"@,
        "CycleCapacityRemain"@,
        "CycleRemainCapacity"@,
        "CapacityRemainPrecise"@,
        "CapacityRemain"@,
        "SlicePeriodCapacityRemainPrecise"@,
        "SlicePeriodCapacityRemain"@,
    ]
}

/// Where a package says how much is used.
pub open spec fn used_keys() -> Seq<Seq<char>> {
    seq![
        "CycleCapacityUsedPrecise"@,
        "CycleCapacityUsed"@,
        "CycleUsedCapacity"@,
        "CapacityUsedPrecise"@,
        "CapacityUsed"@,
        "SlicePeriodCapacityUsedPrecise"@,
        "SlicePeriodCapacityUsed"@,
    ]
}

/// The first of a package's periods.
pub open spec fn first_slice(raw: JsonV) -> Option<JsonV> {
    match first_from(raw, seq!["SlicePeriodUsageDetails"@, "slicePeriodUsageDetails"@], 0) {
        Some(JsonV::Arr(s)) => if s.len() > 0 {
            Some(s[0])
        } else {
            None
        },
        _ => None,
    }
}

/// An amount of a package, or of its first period.
pub open spec fn amount_of(raw: JsonV, keys: Seq<Seq<char>>) -> Option<JsonV> {
    match number_from(raw, keys, 0) {
        Some(n) => Some(n),
        None => match first_slice(raw) {
            Some(s) => number_from(s, keys, 0),
            None => None,
        },
    }
}

fn slice_of(raw: &Json) -> (r: Option<&Json>)
    ensures
        json::opt_view(r) == first_slice(raw@),
{
    let keys: Vec<&str> = vec!["SlicePeriodUsageDetails", "slicePeriodUsageDetails"];
    assert(texts(keys@) =~= seq!["SlicePeriodUsageDetails"@, "slicePeriodUsageDetails"@]);
    match first_value(raw, keys.as_slice()) {
        Some(x) => match x.as_arr() {
            Some(l) => {
                if l.len() > 0 {
                    Some(&l[0])
                } else {
                    None
                }
            },
            None => None,
        },
        None => None,
    }
}

fn amount_in(raw: &Json, keys: &[&str]) -> (r: Option<Json>)
    ensures
        account::opt_json(r) == amount_of(raw@, texts(keys@)),
{
    let own: Option<Json> = first_number(raw, keys);
    if own.is_some() {
        return own;
    }
    match slice_of(raw) {
        Some(s) => first_number(s, keys),
        None => None,
    }
}

/// How large a package is: as it says, else what is left and used together, else
/// either, else zero; never below zero.
pub open spec fn package_total(raw: JsonV) -> JsonV {
    let remaining = amount_of(raw, remaining_keys());
    let used = amount_of(raw, used_keys());
    numbers::at_least_zero(
        match amount_of(raw, total_keys()) {
            Some(t) => t,
            None => match (remaining, used) {
                (Some(r), Some(u)) => numbers::sum(seq![r, u]),
                (Some(r), None) => r,
                (None, Some(u)) => u,
                (None, None) => JsonV::Int(0),
            },
        },
    )
}

/// How much of a package is left: as it says, else its size less what is used;
/// never below zero.
pub open spec fn package_remaining(raw: JsonV) -> JsonV {
    numbers::at_least_zero(
        match amount_of(raw, remaining_keys()) {
            Some(r) => r,
            None => numbers::at_least_zero(
                numbers::minus(
                    package_total(raw),
                    match amount_of(raw, used_keys()) {
                        Some(u) => u,
                        None => JsonV::Int(0),
                    },
                ),
            ),
        },
    )
}

/// How much of a package is used: as it says, else its size less what is left;
/// never below zero.
pub open spec fn package_used(raw: JsonV) -> JsonV {
    numbers::at_least_zero(
        match amount_of(raw, used_keys()) {
            Some(u) => u,
            None => numbers::at_least_zero(numbers::minus(package_total(raw), package_remaining(raw))),
        },
    )
}

/// An integer as a double, cut to an `i64`: itself, as far as all integers are
/// doubles; none beyond the bounds of `i64` and `u64`.
pub open spec fn cut_double(n: int) -> Option<int> {
    if -json::EXACT_INT <= n <= json::EXACT_INT {
        Some(n)
    } else if i64::MIN <= n <= u64::MAX {
        Some(json::double_of_int(n)->0.whole as int)
    } else {
        None
    }
}

/// A package's status, a number cut to an integer.
pub open spec fn package_status(raw: JsonV) -> Option<int> {
    match numbers::number_of(first_from(raw, seq!["Status"@, "status"@], 0)) {
        Some(JsonV::Int(n)) => cut_double(n),
        Some(JsonV::Real(r)) => Some(r.whole as int),
        _ => None,
    }
}

fn status_of(raw: &Json) -> (r: Option<i64>)
    ensures
        json::opt_int(r) == package_status(raw@),
{
    let keys: Vec<&str> = vec!["Status", "status"];
    assert(texts(keys@) =~= seq!["Status"@, "status"@]);
    match numbers::number(first_value(raw, keys.as_slice())) {
        Some(x) => match x {
            Json::Int(n) => match json::to_double(n) {
                Some(d) => Some(d.whole),
                None => None,
            },
            Json::Real(d) => Some(d.whole),
            _ => None,
        },
        None => None,
    }
}

/// Whether an end is past.
pub open spec fn is_past(end: Option<int>, now: int) -> bool {
    match end {
        Some(t) => t <= now,
        None => false,
    }
}

/// Whether an end comes soon.
pub open spec fn is_soon(end: Option<int>, now: int) -> bool {
    match end {
        Some(t) => t > now && (t as i64).wrapping_sub(now as i64) <= EXPIRING_SOON_MS,
        None => false,
    }
}

/// What is told of a package, by the ends of its deductions and of its cycle.
pub open spec fn package(raw: JsonV, deduction: Option<int>, cycle: Option<int>, now: int) -> JsonV {
    let end = expiry(deduction, cycle, now);
    JsonV::empty().put(
        "packageCode"@,
        json::value_or_null(first_from(raw, seq!["PackageCode"@, "packageCode"@], 0)),
    ).put("packageName"@, json::value_or_null(first_from(raw, seq!["PackageName"@, "packageName"@], 0))).put(
        "total"@,
        package_total(raw),
    ).put("remaining"@, package_remaining(raw)).put("used"@, package_used(raw)).put(
        "status"@,
        json::int_or_null(package_status(raw)),
    ).put("expireAt"@, json::int_or_null(end)).put("expired"@, JsonV::Bool(is_past(end, now))).put(
        "expiringSoon"@,
        JsonV::Bool(is_soon(end, now)),
    )
}

fn total_amount(raw: &Json) -> (r: Option<Json>)
    ensures
        account::opt_json(r) == amount_of(raw@, total_keys()),
{
    let keys: Vec<&str> = vec![
        "CycleCapacitySizePrecise",
        "CycleCapacitySize",
        "CycleTotalCapacity",
        "CapacitySizePrecise",
        "CapacitySize",
        "SlicePeriodCapacitySizePrecise",
        "SlicePeriodCapacitySize",
    ];
    assert(texts(keys@) =~= total_keys());
    amount_in(raw, keys.as_slice())
}

fn remaining_amount(raw: &Json) -> (r: Option<Json>)
    ensures
        account::opt_json(r) == amount_of(raw@, remaining_keys()),
{
    let keys: Vec<&str> = vec![
        "CycleCapacityRemainPrecise",
        "CycleCapacityRemain",
        "CycleRemainCapacity",
        "CapacityRemainPrecise",
        "CapacityRemain",
        "SlicePeriodCapacityRemainPrecise",
        "SlicePeriodCapacityRemain",
    ];
    assert(texts(keys@) =~= remaining_keys());
    amount_in(raw, keys.as_slice())
}

fn used_amount(raw: &Json) -> (r: Option<Json>)
    ensures
        account::opt_json(r) == amount_of(raw@, used_keys()),
{
    let keys: Vec<&str> = vec![
        "CycleCapacityUsedPrecise",
        "CycleCapacityUsed",
        "CycleUsedCapacity",
        "CapacityUsedPrecise",
        "CapacityUsed",
        "SlicePeriodCapacityUsedPrecise",
        "SlicePeriodCapacityUsed",
    ];
    assert(texts(keys@) =~= used_keys());
    amount_in(raw, keys.as_slice())
}

fn total_figure(total: Option<Json>, remaining: &Option<Json>, used: &Option<Json>) -> (r: Json)
    ensures
        r@ == numbers::at_least_zero(
            match account::opt_json(total) {
                Some(t) => t,
                None => match (account::opt_json(*remaining), account::opt_json(*used)) {
                    (Some(r), Some(u)) => numbers::sum(seq![r, u]),
                    (Some(r), None) => r,
                    (None, Some(u)) => u,
                    (None, None) => JsonV::Int(0),
                },
            },
        ),
{
    match total {
        Some(t) => numbers::floor(t),
        None => match (remaining, used) {
            (Some(r), Some(u)) => {
                let list: Vec<Json> = vec![r.clone(), u.clone()];
                assert(json::list_view(list@) =~= seq![r@, u@]);
                numbers::floor(numbers::total(list))
            },
            (Some(r), None) => numbers::floor(r.clone()),
            (None, Some(u)) => numbers::floor(u.clone()),
            (None, None) => numbers::floor(Json::num(0)),
        },
    }
}

/// What is told of a package, by the ends of its deductions and of its cycle.
pub fn resource_summary(raw: &Json, deduction: Option<i64>, cycle: Option<i64>, now: i64) -> (r: Json)
    ensures
        r@ == package(raw@, json::opt_int(deduction), json::opt_int(cycle), now as int),
{
    let raw_remaining: Option<Json> = remaining_amount(raw);
    let raw_used: Option<Json> = used_amount(raw);
    let total: Json = total_figure(total_amount(raw), &raw_remaining, &raw_used);
    let remaining: Json = match raw_remaining {
        Some(x) => numbers::floor(x),
        None => {
            let less: Json = match &raw_used {
                Some(u) => u.clone(),
                None => Json::num(0),
            };
            numbers::floor(numbers::floor(numbers::difference(total.clone(), less)))
        },
    };
    let used: Json = match raw_used {
        Some(x) => numbers::floor(x),
        None => numbers::floor(numbers::floor(numbers::difference(total.clone(), remaining.clone()))),
    };
    let end: Option<i64> = resolve_expire_at(deduction, cycle, now);
    let expired: bool = match end {
        Some(t) => t <= now,
        None => false,
    };
    let soon: bool = match end {
        Some(t) => t > now && t.wrapping_sub(now) <= EXPIRING_SOON_MS,
        None => false,
    };
    let code_keys: Vec<&str> = vec!["PackageCode", "packageCode"];
    assert(texts(code_keys@) =~= seq!["PackageCode"@, "packageCode"@]);
    let name_keys: Vec<&str> = vec!["PackageName", "packageName"];
    assert(texts(name_keys@) =~= seq!["PackageName"@, "packageName"@]);
    Json::object().put("packageCode", Json::or_null(first_value(raw, code_keys.as_slice()))).put(
        "packageName",
        Json::or_null(first_value(raw, name_keys.as_slice())),
    ).put("total", total).put("remaining", remaining).put("used", used).put(
        "status",
        Json::opt_int(status_of(raw)),
    ).put("expireAt", Json::opt_int(end)).put("expired", Json::Bool(expired)).put("expiringSoon", Json::Bool(soon))
}

/// A package that is past its end does not end soon, and what is told as its end
/// is never further ahead than it may be.
pub proof fn ends_are_consistent(deduction: Option<int>, cycle: Option<int>, now: int)
    requires
        i64::MIN <= now <= i64::MAX,
    ensures
        ({
            let end = expiry(deduction, cycle, now);
            &&& !(is_past(end, now) && is_soon(end, now))
            &&& end matches Some(t) ==> t - now <= FAR_FUTURE_EXPIRY_MS && (deduction == Some(t) || cycle == Some(t))
        }),
{
}

/// A code, as an integer or as the text of one.
pub open spec fn code_value(v: Option<JsonV>) -> Option<int> {
    match v {
        Some(JsonV::Str(s)) => text::i64_of_text(text::trim(s)),
        Some(x) => x.as_i64(),
        None => None,
    }
}

fn parse_code(v: Option<&Json>) -> (r: Option<i64>)
    ensures
        json::opt_int(r) == code_value(json::opt_view(v)),
{
    match v {
        Some(x) => match x.as_str() {
            Some(s) => {
                let t: Vec<char> = text::chars_of(s);
                text::parse_i64(text::trim_slice(t.as_slice()))
            },
            None => x.as_i64(),
        },
        None => None,
    }
}

/// A member of an answer's data.
pub open spec fn in_data(resp: JsonV, key: Seq<char>) -> Option<JsonV> {
    match resp.get("data"@) {
        Some(d) => d.get(key),
        None => None,
    }
}

fn data_member<'a>(resp: &'a Json, key: &str) -> (r: Option<&'a Json>)
    ensures
        json::opt_view(r) == in_data(resp@, key@),
{
    match resp.get("data") {
        Some(d) => d.get(key),
        None => None,
    }
}

/// The code of an answer, or of its data.
pub open spec fn answer_code(resp: JsonV) -> Option<int> {
    match code_value(resp.get("code"@)) {
        Some(c) => Some(c),
        None => code_value(in_data(resp, "code"@)),
    }
}

/// The code of an answer, or of its data.
pub fn response_code(resp: &Json) -> (r: Option<i64>)
    ensures
        json::opt_int(r) == answer_code(resp@),
{
    match parse_code(resp.get("code")) {
        Some(c) => Some(c),
        None => parse_code(data_member(resp, "code")),
    }
}

/// The first of four members.
pub open spec fn first_of_four(a: Option<JsonV>, b: Option<JsonV>, c: Option<JsonV>, d: Option<JsonV>) -> Option<
    JsonV,
> {
    if a is Some {
        a
    } else if b is Some {
        b
    } else if c is Some {
        c
    } else {
        d
    }
}

/// What an answer says, itself or in its data.
pub open spec fn message_value(resp: JsonV) -> Option<JsonV> {
    first_of_four(
        resp.get("message"@),
        resp.get("msg"@),
        in_data(resp, "message"@),
        in_data(resp, "msg"@),
    )
}

fn message_in(resp: &Json) -> (r: Option<&Json>)
    ensures
        json::opt_view(r) == message_value(resp@),
{
    let a: Option<&Json> = resp.get("message");
    if a.is_some() {
        return a;
    }
    let b: Option<&Json> = resp.get("msg");
    if b.is_some() {
        return b;
    }
    let c: Option<&Json> = data_member(resp, "message");
    if c.is_some() {
        return c;
    }
    data_member(resp, "msg")
}

/// What to say of an answer that failed: the beginning of its message, else its code.
pub open spec fn error_of(resp: JsonV) -> Seq<char> {
    match message_value(resp) {
        Some(JsonV::Str(s)) => if text::trim(s).len() > 0 {
            text::head(s, 160)
        } else {
            code_error(resp)
        },
        _ => code_error(resp),
    }
}

/// What to say of an answer that failed without a message.
pub open spec fn code_error(resp: JsonV) -> Seq<char> {
    "积分查询失败（code="@ + text::int_text(
        match answer_code(resp) {
            Some(c) => c,
            None => -1,
        },
    ) + "）"@
}

/// What to say of an answer that failed.
pub fn response_error(resp: &Json) -> (r: String)
    ensures
        r@ == error_of(resp@),
{
    let said: Option<&str> = match message_in(resp) {
        Some(m) => m.as_str(),
        None => None,
    };
    match said {
        Some(s) => {
            if !text::trimmed(s).as_str().is_empty() {
                return text::head_of(s, 160);
            }
        },
        None => {},
    }
    let code: i64 = match response_code(resp) {
        Some(c) => c,
        None => -1,
    };
    let number: String = text::text_of_i64(code);
    text::concat3("积分查询失败（code=", number.as_str(), "）")
}

/// Whether an answer is a success: by its code, else by having data and not
/// saying otherwise.
pub open spec fn succeeded(resp: JsonV) -> bool {
    resp is Obj && match answer_code(resp) {
        Some(c) => c == 0 || c == 200,
        None => resp.get("data"@) is Some && resp.get_bool("ok"@) != Some(false) && resp.get_bool("success"@) != Some(
            false,
        ),
    }
}

/// Whether an answer is a success.
pub fn is_success(resp: &Json) -> (b: bool)
    ensures
        b == succeeded(resp@),
{
    if !resp.is_obj() {
        return false;
    }
    match response_code(resp) {
        Some(c) => c == 0 || c == 200,
        None => {
            let ok: bool = match resp.get_bool("ok") {
                Some(x) => x,
                None => true,
            };
            let success: bool = match resp.get_bool("success") {
                Some(x) => x,
                None => true,
            };
            resp.get("data").is_some() && ok && success
        },
    }
}

/// Whether a message in lower case speaks of a login that is over.
pub open spec fn speaks_of_login(message: Seq<char>) -> bool {
    text::has(message, "unauthorized"@) || text::has(message, "401"@) || text::has(message, "登录"@) || text::has(
        message,
        "失效"@,
    ) || text::has(message, "过期"@) || text::has(message, "token"@)
}

/// Whether a message in lower case speaks of a login that is over.
pub fn says_unauthorized(message: &str) -> (b: bool)
    ensures
        b == speaks_of_login(message@),
{
    text::contains_text(message, "unauthorized") || text::contains_text(message, "401") || text::contains_text(
        message,
        "登录",
    ) || text::contains_text(message, "失效") || text::contains_text(message, "过期") || text::contains_text(
        message,
        "token",
    )
}

/// What an answer says; empty where it says nothing.
pub open spec fn message_of(resp: JsonV) -> Seq<char> {
    match message_value(resp) {
        Some(JsonV::Str(s)) => s,
        _ => Seq::empty(),
    }
}

/// Whether an answer means that the token is not accepted. The gateway's refusal
/// of a client, 10085, does not: renewing the token would not help.
pub open spec fn unauthorized(resp: JsonV) -> bool {
    let code = match answer_code(resp) {
        Some(c) => c,
        None => -1,
    };
    code != 10085 && (code == 401 || code == 403 || speaks_of_login(text::lowercase_of(message_of(resp))))
}

/// Whether an answer means that the token is not accepted.
pub fn is_unauthorized(resp: &Json) -> (b: bool)
    ensures
        b == unauthorized(resp@),
{
    let code: i64 = match response_code(resp) {
        Some(c) => c,
        None => -1,
    };
    if code == 10085 {
        return false;
    }
    if code == 401 || code == 403 {
        return true;
    }
    let said: Option<&str> = match message_in(resp) {
        Some(m) => m.as_str(),
        None => None,
    };
    let lower: String = match said {
        Some(s) => text::lowercase(s),
        None => {
            let empty: String = String::new();
            text::lowercase(empty.as_str())
        },
    };
    says_unauthorized(lower.as_str())
}

/// Whether an answer stands for a request that did not come through.
pub open spec fn transport_failed(resp: JsonV) -> bool {
    answer_code(resp) == Some(-1int) && match resp.get_str("message"@) {
        Some(s) => text::trim(s).len() > 0,
        None => false,
    }
}

/// Whether an answer stands for a request that did not come through.
pub fn is_transport_error(resp: &Json) -> (b: bool)
    ensures
        b == transport_failed(resp@),
{
    let code: Option<i64> = response_code(resp);
    let lost: bool = match code {
        Some(c) => c == -1,
        None => false,
    };
    let said: bool = match resp.get_str("message") {
        Some(s) => !text::trimmed(s).as_str().is_empty(),
        None => false,
    };
    lost && said
}

/// The answer to a request for an account whose token is an envelope: none is sent.
pub open spec fn envelope_refusal(error: Seq<char>) -> JsonV {
    JsonV::empty().put("code"@, JsonV::Int(-2)).put("message"@, JsonV::Str(error))
}

/// The answer to a request for an account whose token cannot be read; none where
/// the request can be sent.
pub fn refuse_envelope(acc: &Json) -> (r: Option<Json>)
    ensures
        account::opt_json(r) == (if account::envelope(acc@, "access_token"@) {
            Some(envelope_refusal(account::ENVELOPE_TOKEN_ERROR@))
        } else {
            None
        }),
{
    match account::envelope_token_error(acc) {
        Some(e) => Some(Json::object().put("code", Json::num(-2)).put("message", Json::text(e.as_str()))),
        None => None,
    }
}

/// Whether a request is sent once more with a renewed token.
pub fn retries_with_new_token(acc: &Json, resp: &Json) -> (b: bool)
    ensures
        b == (unauthorized(resp@) && refresh::text_or_empty(acc@, "refresh_token"@).len() > 0),
{
    is_unauthorized(resp) && !refresh::get_text(acc, "refresh_token").as_str().is_empty()
}

/// Whether an address lies at an origin.
pub open spec fn lies_at(url: Seq<char>, origin: Seq<char>) -> bool {
    text::starts_with(url, origin) && (url.len() == origin.len() || url[origin.len() as int] == '/')
}

fn is_at(url: &str, origin: &str) -> (b: bool)
    ensures
        b == lies_at(url@, origin@),
{
    let u: Vec<char> = text::chars_of(url);
    let o: Vec<char> = text::chars_of(origin);
    if !text::slice_starts_with(u.as_slice(), origin) {
        return false;
    }
    u.len() == o.len() || u[o.len()] == '/'
}

/// The known origin that an address lies at; the domestic one for any other.
pub open spec fn origin_of(url: Seq<char>) -> Seq<char> {
    if lies_at(url, variant::WORKBUDDY_AI_ENDPOINT@) {
        variant::WORKBUDDY_AI_ENDPOINT@
    } else if lies_at(url, WORKBUDDY_WEB_ENDPOINT@) {
        WORKBUDDY_WEB_ENDPOINT@
    } else {
        variant::WORKBUDDY_API_ENDPOINT@
    }
}

/// The known origin that an address lies at; the domestic one for any other.
pub fn request_origin(url: &str) -> (r: &'static str)
    ensures
        r@ == origin_of(url@),
{
    if is_at(url, variant::WORKBUDDY_AI_ENDPOINT) {
        variant::WORKBUDDY_AI_ENDPOINT
    } else if is_at(url, WORKBUDDY_WEB_ENDPOINT) {
        WORKBUDDY_WEB_ENDPOINT
    } else {
        variant::WORKBUDDY_API_ENDPOINT
    }
}

/// The headers of a request for packages.
pub open spec fn resource_headers(acc: JsonV, origin: Seq<char>) -> Map<Seq<char>, Seq<char>> {
    account::auth_headers(acc).insert("X-Client-Platform"@, "web"@).insert(
        "Accept"@,
        "application/json, text/plain, */*"@,
    ).insert("Origin"@, origin).insert("Referer"@, origin + "/profile/plans-usage"@)
}

/// The headers of a request for packages.
pub fn resource_auth_headers(acc: &Json, origin: &str) -> (m: TextMap)
    ensures
        m@ == resource_headers(acc@, origin@),
{
    let mut headers: TextMap = account::build_auth_headers(acc);
    headers.insert("X-Client-Platform".to_owned(), "web".to_owned());
    headers.insert("Accept".to_owned(), "application/json, text/plain, */*".to_owned());
    headers.insert("Origin".to_owned(), origin.to_owned());
    headers.insert("Referer".to_owned(), text::concat(origin, "/profile/plans-usage"));
    headers
}

/// The codes of the paid packages.
pub open spec fn paid_codes() -> Seq<Seq<char>> {
    seq![
        "TCACA_code_002_AkiJS3ZHF5"@,
        "TCACA_code_023_4xbGhMrE6q"@,
        "TCACA_code_026_BaESVICNoi"@,
        "TCACA_code_027_0FCGVA6vSa"@,
        "TCACA_code_009_0XmEQc2xOf"@,
        "TCACA_code_038_OhvqZtiPKr"@,
        "TCACA_code_003_FAnt7lcmRT"@,
        "TCACA_code_036_lupO5WgNdG"@,
    ]
}

/// The codes of the free packages.
pub open spec fn free_codes() -> Seq<Seq<char>> {
    seq![
        "TCACA_code_008_cfWoLwvjU4"@,
        "TCACA_code_007_nzdH5h4Nl0"@,
        "TCACA_code_028_NtpWi0jzXs"@,
        "TCACA_code_029_6wCGEWquYy"@,
        "TCACA_code_030_BjSt89qTvr"@,
        "TCACA_code_001_PqouKr6QWV"@,
        "TCACA_code_006_DbXS0lrypC"@,
        "TCACA_code_035_ArVxJcGDsm"@,
        "TCACA_code_037_WxOD3MpI2o"@,
        "TCACA_code_039_KRcQj7wUat"@,
        "TCACA_code_040_mi9rCYg46x"@,
    ]
}

/// The codes of the paid packages.
pub fn paid_package_codes() -> (r: Vec<&'static str>)
    ensures
        texts(r@) == paid_codes(),
{
    let r: Vec<&'static str> = vec![
        "TCACA_code_002_AkiJS3ZHF5",
        "TCACA_code_023_4xbGhMrE6q",
        "TCACA_code_026_BaESVICNoi",
        "TCACA_code_027_0FCGVA6vSa",
        "TCACA_code_009_0XmEQc2xOf",
        "TCACA_code_038_OhvqZtiPKr",
        "TCACA_code_003_FAnt7lcmRT",
        "TCACA_code_036_lupO5WgNdG",
    ];
    assert(texts(r@) =~= paid_codes());
    r
}

/// The codes of the free packages.
pub fn free_package_codes() -> (r: Vec<&'static str>)
    ensures
        texts(r@) == free_codes(),
{
    let r: Vec<&'static str> = vec![
        "TCACA_code_008_cfWoLwvjU4",
        "TCACA_code_007_nzdH5h4Nl0",
        "TCACA_code_028_NtpWi0jzXs",
        "TCACA_code_029_6wCGEWquYy",
        "TCACA_code_030_BjSt89qTvr",
        "TCACA_code_001_PqouKr6QWV",
        "TCACA_code_006_DbXS0lrypC",
        "TCACA_code_035_ArVxJcGDsm",
        "TCACA_code_037_WxOD3MpI2o",
        "TCACA_code_039_KRcQj7wUat",
        "TCACA_code_040_mi9rCYg46x",
    ];
    assert(texts(r@) =~= free_codes());
    r
}

/// A list of texts as a JSON value.
pub open spec fn text_list(s: Seq<Seq<char>>) -> JsonV {
    JsonV::Arr(s.map_values(|t: Seq<char>| JsonV::Str(t)))
}

fn list_of(codes: Vec<&'static str>) -> (r: Json)
    ensures
        r@ == text_list(texts(codes@)),
{
    let mut list: Vec<Json> = Vec::new();
    let mut i: usize = 0;
    while i < codes.len()
        invariant
            i <= codes@.len(),
            list@.len() == i,
            forall|j: int| 0 <= j < i ==> (#[trigger] list@[j])@ == JsonV::Str(codes@[j]@),
        decreases codes@.len() - i,
    {
        list.push(Json::text(codes[i]));
        i += 1;
    }
    assert(json::list_view(list@) =~= texts(codes@).map_values(|t: Seq<char>| JsonV::Str(t)));
    Json::Arr(list)
}

/// The states of a package that count.
pub open spec fn live_states() -> JsonV {
    JsonV::Arr(seq![JsonV::Int(0), JsonV::Int(3)])
}

fn states() -> (r: Json)
    ensures
        r@ == live_states(),
{
    let list: Vec<Json> = vec![Json::num(0), Json::num(3)];
    assert(json::list_view(list@) =~= seq![JsonV::Int(0), JsonV::Int(3)]);
    Json::Arr(list)
}

/// The request for the paid packages.
pub fn paid_packages_body() -> (r: Json)
    ensures
        r@ == JsonV::empty().put("PageNumber"@, JsonV::Int(1)).put("PageSize"@, JsonV::Int(200)).put(
            "Status"@,
            live_states(),
        ).put("PackageCodes"@, text_list(paid_codes())).put("NeedRenewInfo"@, JsonV::Bool(true)),
{
    Json::object().put("PageNumber", Json::num(1)).put("PageSize", Json::num(200)).put("Status", states()).put(
        "PackageCodes",
        list_of(paid_package_codes()),
    ).put("NeedRenewInfo", Json::Bool(true))
}

/// The request for the free packages of a day.
pub fn free_packages_body(day: i32) -> (r: Json)
    requires
        clock::FIRST_DAY <= day <= clock::LAST_DAY,
    ensures
        r@ == JsonV::empty().put("PageNumber"@, JsonV::Int(1)).put("PageSize"@, JsonV::Int(200)).put(
            "Status"@,
            live_states(),
        ).put("SlicePeriodStartTime"@, JsonV::Str(clock::text_of_day(day) + " 00:00:00"@)).put(
            "SlicePeriodEndTime"@,
            JsonV::Str(clock::text_of_day(day) + " 23:59:59"@),
        ).put("PackageCodes"@, text_list(free_codes())),
{
    let date: String = clock::day_text(day);
    let start: String = text::concat(date.as_str(), " 00:00:00");
    let end: String = text::concat(date.as_str(), " 23:59:59");
    Json::object().put("PageNumber", Json::num(1)).put("PageSize", Json::num(200)).put("Status", states()).put(
        "SlicePeriodStartTime",
        Json::text(start.as_str()),
    ).put("SlicePeriodEndTime", Json::text(end.as_str())).put("PackageCodes", list_of(free_package_codes()))
}

/// The older request for packages that end within a span.
pub open spec fn legacy_body(begin: Seq<char>, end: Seq<char>) -> JsonV {
    JsonV::empty().put("PageNumber"@, JsonV::Int(1)).put("PageSize"@, JsonV::Int(100)).put(
        "ProductCode"@,
        JsonV::Str(PRODUCT_CODE@),
    ).put("Status"@, live_states()).put("PackageEndTimeRangeBegin"@, JsonV::Str(begin)).put(
        "PackageEndTimeRangeEnd"@,
        JsonV::Str(end),
    )
}

/// The older request for packages that end within a span.
pub fn legacy_resource_body(begin: &str, end: &str) -> (r: Json)
    ensures
        r@ == legacy_body(begin@, end@),
{
    Json::object().put("PageNumber", Json::num(1)).put("PageSize", Json::num(100)).put(
        "ProductCode",
        Json::text(PRODUCT_CODE),
    ).put("Status", states()).put("PackageEndTimeRangeBegin", Json::text(begin)).put(
        "PackageEndTimeRangeEnd",
        Json::text(end),
    )
}

/// How far ahead the older request looks: 36865 days.
pub const LEGACY_SPAN_MS: i64 = 3_185_136_000_000;

/// The older request for packages that end from now on, by local time; none at
/// the ends of the calendar.
pub fn legacy_resource_body_at(now: i64) -> (r: Option<Json>)
    ensures
        match r {
            Some(j) => exists|begin: i64, end: i64|
                #![trigger clock::text_of_wall(begin), clock::text_of_wall(end)]
                clock::may_show(now as int, begin as int) && clock::may_show(now + LEGACY_SPAN_MS, end as int) && j@
                    == legacy_body(clock::text_of_wall(begin), clock::text_of_wall(end)),
            None => !clock::has_day(now as int) || !clock::has_day(now + LEGACY_SPAN_MS),
        },
{
    if clock::FIRST_MS + clock::DAY_MS <= now && now <= clock::LAST_MS - clock::DAY_MS - LEGACY_SPAN_MS {
        let begin: i64 = clock::local_wall(now);
        let end: i64 = clock::local_wall(now + LEGACY_SPAN_MS);
        let from: String = clock::wall_text(begin);
        let to: String = clock::wall_text(end);
        Some(legacy_resource_body(from.as_str(), to.as_str()))
    } else {
        None
    }
}

/// Where an account's requests go: the international service, or one of the two
/// domestic ones, by the account's domain. No account can name another host.
pub open spec fn base_of(acc: JsonV) -> Seq<char> {
    if variant::variant_in(acc) == WbVariant::Ai {
        variant::WORKBUDDY_AI_ENDPOINT@
    } else {
        match acc.get_str("domain"@) {
            Some(d) => if text::lower(text::trim(d)) == "workbuddy.cn"@ || text::lower(text::trim(d))
                == "www.workbuddy.cn"@ {
                WORKBUDDY_WEB_ENDPOINT@
            } else {
                variant::WORKBUDDY_API_ENDPOINT@
            },
            None => variant::WORKBUDDY_API_ENDPOINT@,
        }
    }
}

/// Where an account's requests go.
pub fn api_base_for(acc: &Json) -> (r: &'static str)
    ensures
        r@ == base_of(acc@),
{
    if account::variant_of(acc) == WbVariant::Ai {
        return variant::WORKBUDDY_AI_ENDPOINT;
    }
    match acc.get_str("domain") {
        Some(d) => {
            let t: String = text::trimmed(d);
            let low: String = text::to_lower(t.as_str());
            if same(low.as_str(), "workbuddy.cn") || same(low.as_str(), "www.workbuddy.cn") {
                WORKBUDDY_WEB_ENDPOINT
            } else {
                variant::WORKBUDDY_API_ENDPOINT
            }
        },
        None => variant::WORKBUDDY_API_ENDPOINT,
    }
}

/// The request address of a path.
pub fn request_url(acc: &Json, path: &str) -> (r: String)
    ensures
        r@ == base_of(acc@) + path@,
{
    text::concat(api_base_for(acc), path)
}

/// The answer where an account has no path to ask.
pub fn no_path_answer() -> (r: Json)
    ensures
        r@ == JsonV::empty().put("code"@, JsonV::Int(-1)).put("message"@, JsonV::Str("无可用接口路径"@)),
{
    Json::object().put("code", Json::num(-1)).put("message", Json::text("无可用接口路径"))
}

/// Whether the account's token is renewed after its three requests: one of the
/// answers refuses it, and there is a refresh token.
pub open spec fn renews_after(acc: JsonV, summary: JsonV, paid: JsonV, free: JsonV) -> bool {
    (unauthorized(summary) || unauthorized(paid) || unauthorized(free)) && match acc.get_str("refresh_token"@) {
        Some(t) => text::trim(t).len() > 0,
        None => false,
    }
}

/// Whether the account's token is renewed after its three requests. It is renewed
/// once for all of them, and only the refused ones are sent again.
pub fn needs_refresh_after(acc: &Json, summary: &Json, paid: &Json, free: &Json) -> (b: bool)
    ensures
        b == renews_after(acc@, summary@, paid@, free@),
{
    let refused: bool = is_unauthorized(summary) || is_unauthorized(paid) || is_unauthorized(free);
    let can: bool = match acc.get_str("refresh_token") {
        Some(t) => !text::trimmed(t).as_str().is_empty(),
        None => false,
    };
    refused && can
}

/// Whether the older request is sent again with a renewed token: it was refused,
/// no renewal was made for this query yet, and there is a refresh token.
pub fn retries_legacy(acc: &Json, resp: &Json, refresh_attempted: bool) -> (b: bool)
    ensures
        b == (unauthorized(resp@) && !refresh_attempted && refresh::text_or_empty(acc@, "refresh_token"@).len() > 0),
{
    !refresh_attempted && retries_with_new_token(acc, resp)
}

/// Only the domestic edition has the three newer requests.
pub fn uses_three_endpoint_query(v: WbVariant) -> (b: bool)
    ensures
        b == (v == WbVariant::Cn),
{
    v == WbVariant::Cn
}

/// The code of a package that was told.
pub open spec fn code_in(resource: JsonV) -> Option<Seq<char>> {
    match first_from(resource, seq!["packageCode"@, "PackageCode"@], 0) {
        Some(JsonV::Str(s)) => Some(s),
        _ => None,
    }
}

fn package_code(resource: &Json) -> (r: Option<&str>)
    ensures
        json::opt_text(r) == code_in(resource@),
{
    let keys: Vec<&str> = vec!["packageCode", "PackageCode"];
    assert(texts(keys@) =~= seq!["packageCode"@, "PackageCode"@]);
    match first_value(resource, keys.as_slice()) {
        Some(x) => x.as_str(),
        None => None,
    }
}

/// Whether one of the packages has the code.
pub open spec fn has_code(resources: Seq<JsonV>, code: Seq<char>) -> bool {
    exists|i: int| 0 <= i < resources.len() && code_in(#[trigger] resources[i]) == Some(code)
}

fn is_code_of(resources: &[Json], code: &str) -> (b: bool)
    ensures
        b == has_code(json::list_view(resources@), code@),
{
    let ghost all = json::list_view(resources@);
    let mut i: usize = 0;
    while i < resources.len()
        invariant
            i <= resources@.len(),
            all == json::list_view(resources@),
            forall|j: int| 0 <= j < i ==> code_in(#[trigger] all[j]) != Some(code@),
        decreases resources@.len() - i,
    {
        assert(all[i as int] == resources@[i as int]@);
        let hit: bool = match package_code(&resources[i]) {
            Some(c) => same(c, code),
            None => false,
        };
        if hit {
            return true;
        }
        i += 1;
    }
    false
}

/// The packages of the summary that the details do not cover.
pub open spec fn uncovered(summary: Seq<JsonV>, details: Seq<JsonV>) -> Seq<JsonV>
    decreases summary.len(),
{
    if summary.len() == 0 {
        Seq::empty()
    } else {
        let rest = uncovered(summary.subrange(0, summary.len() - 1), details);
        let r = summary[summary.len() - 1];
        match code_in(r) {
            Some(c) => if has_code(details, c) {
                rest
            } else {
                rest.push(r)
            },
            None => rest.push(r),
        }
    }
}

/// The packages of the details, then those that only the summary has.
pub open spec fn merged(summary: Seq<JsonV>, details: Seq<JsonV>) -> Seq<JsonV> {
    details + uncovered(summary, details)
}

/// The packages of the details, then those that only the summary has.
pub fn merge_resources(summary: Vec<Json>, details: Vec<Json>) -> (r: Vec<Json>)
    ensures
        json::list_view(r@) == merged(json::list_view(summary@), json::list_view(details@)),
{
    let ghost all = json::list_view(summary@);
    let ghost known = json::list_view(details@);
    let mut resources: Vec<Json> = json::clone_slice(details.as_slice());
    let mut i: usize = 0;
    assert(json::list_view(resources@) =~= known + uncovered(all.subrange(0, 0), known));
    while i < summary.len()
        invariant
            i <= summary@.len(),
            all == json::list_view(summary@),
            known == json::list_view(details@),
            json::list_view(resources@) == known + uncovered(all.subrange(0, i as int), known),
        decreases summary@.len() - i,
    {
        assert(all.subrange(0, i + 1).subrange(0, i as int) =~= all.subrange(0, i as int));
        assert(all[i as int] == summary@[i as int]@);
        let covered: bool = match package_code(&summary[i]) {
            Some(c) => is_code_of(details.as_slice(), c),
            None => false,
        };
        if !covered {
            let ghost held = resources@;
            resources.push(summary[i].clone());
            assert(json::list_view(resources@) =~= json::list_view(held).push(all[i as int]));
            assert((known + uncovered(all.subrange(0, i as int), known)).push(all[i as int]) =~= known + uncovered(
                all.subrange(0, i + 1),
                known,
            ));
        }
        i += 1;
    }
    assert(all.subrange(0, all.len() as int) =~= all);
    resources
}

proof fn uncovered_is_new(summary: Seq<JsonV>, details: Seq<JsonV>, i: int)
    requires
        0 <= i < uncovered(summary, details).len(),
    ensures
        summary.contains(uncovered(summary, details)[i]),
        code_in(uncovered(summary, details)[i]) matches Some(c) ==> !has_code(details, c),
    decreases summary.len(),
{
    let n = summary.len() - 1;
    let front = summary.subrange(0, n);
    let rest = uncovered(front, details);
    if i < rest.len() {
        uncovered_is_new(front, details, i);
        let k = choose|k: int| 0 <= k < front.len() && front[k] == rest[i];
        assert(summary[k] == rest[i]);
        assert(uncovered(summary, details)[i] == rest[i]);
    } else {
        assert(uncovered(summary, details)[i] == summary[n]);
    }
}

/// Merging keeps every batch of the details, and adds a package of the summary
/// only where the details have none of its code.
pub proof fn merging_keeps_details(summary: Seq<JsonV>, details: Seq<JsonV>, i: int)
    requires
        0 <= i < merged(summary, details).len(),
    ensures
        i < details.len() ==> merged(summary, details)[i] == details[i],
        i >= details.len() ==> summary.contains(merged(summary, details)[i]) && (code_in(merged(summary, details)[i])
            matches Some(c) ==> !has_code(details, c)),
{
    if i >= details.len() {
        uncovered_is_new(summary, details, i - details.len());
    }
}

/// What the three newer answers list: the packages of the summary, and those of
/// the paid and the free details; none where not one of the answers can be used.
pub open spec fn new_lists(summary: JsonV, paid: JsonV, free: JsonV) -> Option<(Seq<JsonV>, Seq<JsonV>)> {
    let s = if succeeded(summary) {
        listed(summary, "Packages"@, "packages"@)
    } else {
        None
    };
    let p = if succeeded(paid) {
        listed(paid, "Accounts"@, "accounts"@)
    } else {
        None
    };
    let f = if succeeded(free) {
        listed(free, "Accounts"@, "accounts"@)
    } else {
        None
    };
    if s is None && p is None && f is None {
        None
    } else {
        Some((or_none(s), or_none(p) + or_none(f)))
    }
}

/// What the three newer answers list, as they list it: the packages of the
/// summary, and those of the details. None means that the older request is due.
pub fn new_resources(summary: &Json, paid: &Json, free: &Json) -> (r: Option<(Vec<Json>, Vec<Json>)>)
    ensures
        match r {
            Some((s, d)) => new_lists(summary@, paid@, free@) == Some((json::list_view(s@), json::list_view(d@))),
            None => new_lists(summary@, paid@, free@) is None,
        },
{
    let summary_ok: bool = is_success(summary) && has_resource_packages(summary);
    let paid_ok: bool = is_success(paid) && has_resource_accounts(paid);
    let free_ok: bool = is_success(free) && has_resource_accounts(free);
    if !(summary_ok || paid_ok || free_ok) {
        return None;
    }
    let s: Vec<Json> = if summary_ok {
        resource_packages(summary)
    } else {
        copied(None)
    };
    let p: Vec<Json> = if paid_ok {
        resource_accounts(paid)
    } else {
        copied(None)
    };
    let f: Vec<Json> = if free_ok {
        resource_accounts(free)
    } else {
        copied(None)
    };
    let ghost front = p@;
    let mut d: Vec<Json> = p;
    let mut i: usize = 0;
    assert(json::list_view(d@) =~= json::list_view(front) + json::list_view(f@).subrange(0, 0));
    while i < f.len()
        invariant
            i <= f@.len(),
            json::list_view(d@) == json::list_view(front) + json::list_view(f@).subrange(0, i as int),
        decreases f@.len() - i,
    {
        let ghost held = d@;
        d.push(f[i].clone());
        assert(json::list_view(d@) =~= json::list_view(held).push(f@[i as int]@));
        assert(json::list_view(d@) =~= json::list_view(front) + json::list_view(f@).subrange(0, i + 1));
        i += 1;
    }
    assert(json::list_view(f@).subrange(0, f@.len() as int) =~= json::list_view(f@));
    Some((s, d))
}

/// The ends of a package's deductions and cycle at place `i`.
pub open spec fn ends_at(ends: Seq<(Option<i64>, Option<i64>)>, i: int) -> (Option<int>, Option<int>) {
    if 0 <= i < ends.len() {
        (json::opt_int(ends[i].0), json::opt_int(ends[i].1))
    } else {
        (None, None)
    }
}

/// What is told of packages, by the ends of each.
pub open spec fn packages(raws: Seq<JsonV>, ends: Seq<(Option<i64>, Option<i64>)>, now: int) -> Seq<JsonV> {
    Seq::new(raws.len(), |i: int| package(raws[i], ends_at(ends, i).0, ends_at(ends, i).1, now))
}

/// What is told of packages, by the ends of each.
pub fn resource_summaries(raws: &[Json], ends: &[(Option<i64>, Option<i64>)], now: i64) -> (r: Vec<Json>)
    ensures
        json::list_view(r@) == packages(json::list_view(raws@), ends@, now as int),
{
    let ghost all = json::list_view(raws@);
    let mut list: Vec<Json> = Vec::new();
    let mut i: usize = 0;
    while i < raws.len()
        invariant
            i <= raws@.len(),
            all == json::list_view(raws@),
            list@.len() == i,
            forall|j: int|
                0 <= j < i ==> (#[trigger] list@[j])@ == package(
                    all[j],
                    ends_at(ends@, j).0,
                    ends_at(ends@, j).1,
                    now as int,
                ),
        decreases raws@.len() - i,
    {
        assert(all[i as int] == raws@[i as int]@);
        let pair: (Option<i64>, Option<i64>) = if i < ends.len() {
            ends[i]
        } else {
            (None, None)
        };
        list.push(resource_summary(&raws[i], pair.0, pair.1, now));
        i += 1;
    }
    assert(json::list_view(list@) =~= packages(all, ends@, now as int));
    list
}

/// What is told of the packages of the three newer answers, by the ends of those
/// that they list, first of the summary's and then of the details'.
pub fn normalized_new_resources(
    summary: &Json,
    paid: &Json,
    free: &Json,
    summary_ends: &[(Option<i64>, Option<i64>)],
    detail_ends: &[(Option<i64>, Option<i64>)],
    now: i64,
) -> (r: Option<Vec<Json>>)
    ensures
        match r {
            Some(l) => new_lists(summary@, paid@, free@) matches Some(p) && json::list_view(l@) == merged(
                packages(p.0, summary_ends@, now as int),
                packages(p.1, detail_ends@, now as int),
            ),
            None => new_lists(summary@, paid@, free@) is None,
        },
{
    match new_resources(summary, paid, free) {
        Some((s, d)) => Some(
            merge_resources(
                resource_summaries(s.as_slice(), summary_ends, now),
                resource_summaries(d.as_slice(), detail_ends, now),
            ),
        ),
        None => None,
    }
}

/// The amounts of the packages, of those with a mark where one is asked for.
pub open spec fn amounts(resources: Seq<JsonV>, key: Seq<char>, mark: Option<Seq<char>>) -> Seq<JsonV>
    decreases resources.len(),
{
    if resources.len() == 0 {
        Seq::empty()
    } else {
        let rest = amounts(resources.subrange(0, resources.len() - 1), key, mark);
        let r = resources[resources.len() - 1];
        match r.get(key) {
            Some(x) => if numbers::is_number(x) && (mark is None || r.get_bool(mark->0) == Some(true)) {
                rest.push(x)
            } else {
                rest
            },
            None => rest,
        }
    }
}

fn is_marked(r: &Json, mark: Option<&str>) -> (b: bool)
    ensures
        b == (mark is None || r@.get_bool(mark->0@) == Some(true)),
{
    match mark {
        Some(m) => match r.get_bool(m) {
            Some(x) => x,
            None => false,
        },
        None => true,
    }
}

fn sum_amounts(resources: &[Json], key: &str, mark: Option<&str>) -> (r: Json)
    ensures
        r@ == numbers::sum(amounts(json::list_view(resources@), key@, json::opt_text(mark))),
{
    let ghost all = json::list_view(resources@);
    let ghost m = json::opt_text(mark);
    let mut list: Vec<Json> = Vec::new();
    let mut i: usize = 0;
    assert(json::list_view(list@) =~= amounts(all.subrange(0, 0), key@, m));
    while i < resources.len()
        invariant
            i <= resources@.len(),
            all == json::list_view(resources@),
            m == json::opt_text(mark),
            json::list_view(list@) == amounts(all.subrange(0, i as int), key@, m),
        decreases resources@.len() - i,
    {
        assert(all.subrange(0, i + 1).subrange(0, i as int) =~= all.subrange(0, i as int));
        assert(all[i as int] == resources@[i as int]@);
        match resources[i].get(key) {
            Some(x) => {
                let counts: bool = match x {
                    Json::Int(_) | Json::Real(_) | Json::Calc(_, _) => true,
                    _ => false,
                };
                if counts && is_marked(&resources[i], mark) {
                    let ghost held = list@;
                    list.push(x.clone());
                    assert(json::list_view(list@) =~= json::list_view(held).push(x@));
                }
            },
            None => {},
        }
        i += 1;
    }
    assert(all.subrange(0, all.len() as int) =~= all);
    numbers::total(list)
}

/// The earliest end of the packages that something is left of.
pub open spec fn soonest(resources: Seq<JsonV>) -> Option<int>
    decreases resources.len(),
{
    if resources.len() == 0 {
        None
    } else {
        let rest = soonest(resources.subrange(0, resources.len() - 1));
        let r = resources[resources.len() - 1];
        match r.get_i64("expireAt"@) {
            Some(t) => if numbers::positive(r.get("remaining"@)) && (rest is None || t < rest->0) {
                Some(t)
            } else {
                rest
            },
            None => rest,
        }
    }
}

fn soonest_end(resources: &[Json]) -> (r: Option<i64>)
    ensures
        json::opt_int(r) == soonest(json::list_view(resources@)),
{
    let ghost all = json::list_view(resources@);
    let mut best: Option<i64> = None;
    let mut i: usize = 0;
    assert(soonest(all.subrange(0, 0)) is None);
    while i < resources.len()
        invariant
            i <= resources@.len(),
            all == json::list_view(resources@),
            json::opt_int(best) == soonest(all.subrange(0, i as int)),
        decreases resources@.len() - i,
    {
        assert(all.subrange(0, i + 1).subrange(0, i as int) =~= all.subrange(0, i as int));
        assert(all[i as int] == resources@[i as int]@);
        match resources[i].get_i64("expireAt") {
            Some(t) => {
                let earlier: bool = match best {
                    Some(b) => t < b,
                    None => true,
                };
                if earlier && numbers::is_positive(resources[i].get("remaining")) {
                    best = Some(t);
                }
            },
            None => {},
        }
        i += 1;
    }
    assert(all.subrange(0, all.len() as int) =~= all);
    best
}

/// Whether a package that something is left of has the mark.
pub open spec fn marked(resources: Seq<JsonV>, mark: Seq<char>) -> bool {
    exists|i: int|
        0 <= i < resources.len() && (#[trigger] resources[i]).get_bool(mark) == Some(true) && numbers::positive(
            resources[i].get("remaining"@),
        )
}

fn any_marked(resources: &[Json], mark: &str) -> (b: bool)
    ensures
        b == marked(json::list_view(resources@), mark@),
{
    let ghost all = json::list_view(resources@);
    let mut i: usize = 0;
    while i < resources.len()
        invariant
            i <= resources@.len(),
            all == json::list_view(resources@),
            forall|j: int|
                0 <= j < i ==> !((#[trigger] all[j]).get_bool(mark@) == Some(true) && numbers::positive(
                    all[j].get("remaining"@),
                )),
        decreases resources@.len() - i,
    {
        assert(all[i as int] == resources@[i as int]@);
        if is_marked(&resources[i], Some(mark)) && numbers::is_positive(resources[i].get("remaining")) {
            return true;
        }
        i += 1;
    }
    false
}

/// Whether what is left of each package is worked out.
pub open spec fn worked_out(resources: Seq<JsonV>) -> bool {
    forall|i: int| 0 <= i < resources.len() ==> !((#[trigger] resources[i]).get("remaining"@) matches Some(JsonV::Calc(..)))
}

/// What is told of an account's credits.
pub open spec fn credits_of(acc: JsonV, resources: Seq<JsonV>, now: int) -> JsonV {
    JsonV::empty().put("ok"@, JsonV::Bool(true)).put("accountId"@, json::value_or_null(acc.get("id"@))).put(
        "accountName"@,
        JsonV::Str(account::display_name(acc)),
    ).put("updatedAt"@, JsonV::Int(now)).put(
        "totalCapacity"@,
        numbers::sum(amounts(resources, "total"@, None)),
    ).put("totalRemaining"@, numbers::sum(amounts(resources, "remaining"@, None))).put(
        "expiringSoonRemaining"@,
        numbers::sum(amounts(resources, "remaining"@, Some("expiringSoon"@))),
    ).put("expiredRemaining"@, numbers::sum(amounts(resources, "remaining"@, Some("expired"@)))).put(
        "soonestExpireAt"@,
        json::int_or_null(soonest(resources)),
    ).put("expiringSoon"@, JsonV::Bool(marked(resources, "expiringSoon"@))).put(
        "expired"@,
        JsonV::Bool(marked(resources, "expired"@)),
    ).put("resources"@, JsonV::Arr(resources))
}

/// What is told of an account's credits, by what is told of its packages; what is
/// left of each is worked out before.
pub fn credit_result(acc: &Json, resources: Vec<Json>, now: i64) -> (r: Json)
    requires
        worked_out(json::list_view(resources@)),
    ensures
        r@ == credits_of(acc@, json::list_view(resources@), now as int),
{
    let list: &[Json] = resources.as_slice();
    let name: String = account::account_display_name(acc);
    let capacity: Json = sum_amounts(list, "total", None);
    let remaining: Json = sum_amounts(list, "remaining", None);
    let soon_remaining: Json = sum_amounts(list, "remaining", Some("expiringSoon"));
    let expired_remaining: Json = sum_amounts(list, "remaining", Some("expired"));
    let end: Option<i64> = soonest_end(list);
    let soon: bool = any_marked(list, "expiringSoon");
    let expired: bool = any_marked(list, "expired");
    Json::object().put("ok", Json::Bool(true)).put("accountId", Json::or_null(acc.get("id"))).put(
        "accountName",
        Json::text(name.as_str()),
    ).put("updatedAt", Json::num(now)).put("totalCapacity", capacity).put("totalRemaining", remaining).put(
        "expiringSoonRemaining",
        soon_remaining,
    ).put("expiredRemaining", expired_remaining).put("soonestExpireAt", Json::opt_int(end)).put(
        "expiringSoon",
        Json::Bool(soon),
    ).put("expired", Json::Bool(expired)).put("resources", Json::Arr(resources))
}

/// What is told of an account whose credits could not be had.
pub open spec fn no_credits(acc: JsonV, error: Seq<char>) -> JsonV {
    JsonV::empty().put("ok"@, JsonV::Bool(false)).put("accountId"@, json::value_or_null(acc.get("id"@))).put(
        "accountName"@,
        JsonV::Str(account::display_name(acc)),
    ).put("error"@, JsonV::Str(error))
}

/// What is told of an account whose credits could not be had.
pub fn credit_failure(acc: &Json, error: &str) -> (r: Json)
    ensures
        r@ == no_credits(acc@, error@),
{
    let name: String = account::account_display_name(acc);
    Json::object().put("ok", Json::Bool(false)).put("accountId", Json::or_null(acc.get("id"))).put(
        "accountName",
        Json::text(name.as_str()),
    ).put("error", Json::text(error))
}

/// A step of a query for an account's credits.
#[derive(Debug, Clone, Copy, PartialEq, Eq, Structural)]
pub enum CreditStep {
    /// Make the three newer requests.
    Newer,
    /// Renew the token, and make those of the three requests again that were refused.
    NewerAgain,
    /// Make the older request; the token may have been renewed before.
    Older { renewed: bool },
    /// Renew the token, and make the older request again.
    OlderAgain,
    /// Tell what the newer answers say.
    TellNewer,
    /// Tell what the older answer says.
    TellOlder,
}

/// Begins a query for an account's credits: a token that cannot be read ends it,
/// and the edition says which requests are made.
pub fn get_credit_expiry(acc: &Json) -> (r: Result<CreditStep, Json>)
    ensures
        if account::envelope(acc@, "access_token"@) {
            r matches Err(j) && j@ == no_credits(acc@, account::ENVELOPE_TOKEN_ERROR@)
        } else if variant::variant_in(acc@) == WbVariant::Cn {
            r matches Ok(step) && step == CreditStep::Newer
        } else {
            r matches Ok(step) && step == (CreditStep::Older { renewed: false })
        },
{
    match account::envelope_token_error(acc) {
        Some(e) => Err(credit_failure(acc, e.as_str())),
        None => {
            if uses_three_endpoint_query(account::variant_of(acc)) {
                Ok(CreditStep::Newer)
            } else {
                Ok(CreditStep::Older { renewed: false })
            }
        },
    }
}

/// What is known at a step of a query: the account as it is used, the three newer
/// answers and the older one, as far as they were had.
#[verifier::ext_equal]
pub struct AnswersV {
    pub account: JsonV,
    pub summary: JsonV,
    pub paid: JsonV,
    pub free: JsonV,
    pub older: JsonV,
}

/// The step after the newer answers: they are told where they list packages.
pub open spec fn after_newer(a: AnswersV, renewed: bool) -> CreditStep {
    if new_lists(a.summary, a.paid, a.free) is Some {
        CreditStep::TellNewer
    } else {
        CreditStep::Older { renewed }
    }
}

/// What comes after a step of a query.
pub open spec fn after_step(step: CreditStep, a: AnswersV) -> CreditStep {
    match step {
        CreditStep::Newer => if renews_after(a.account, a.summary, a.paid, a.free) {
            CreditStep::NewerAgain
        } else {
            after_newer(a, false)
        },
        CreditStep::NewerAgain => after_newer(a, true),
        CreditStep::Older { renewed } => if unauthorized(a.older) && !renewed && refresh::text_or_empty(
            a.account,
            "refresh_token"@,
        ).len() > 0 {
            CreditStep::OlderAgain
        } else {
            CreditStep::TellOlder
        },
        CreditStep::OlderAgain => CreditStep::TellOlder,
        other => other,
    }
}

fn newer_or_older(summary: &Json, paid: &Json, free: &Json, renewed: bool) -> (r: CreditStep)
    ensures
        r == (if new_lists(summary@, paid@, free@) is Some {
            CreditStep::TellNewer
        } else {
            CreditStep::Older { renewed }
        }),
{
    match new_resources(summary, paid, free) {
        Some(_) => CreditStep::TellNewer,
        None => CreditStep::Older { renewed },
    }
}

/// What comes after a step of a query. `acc` is the account as it was used last;
/// an answer that was not asked for yet may be anything.
pub fn credit_next(step: CreditStep, acc: &Json, summary: &Json, paid: &Json, free: &Json, older: &Json) -> (r: CreditStep)
    ensures
        r == after_step(
            step,
            (AnswersV { account: acc@, summary: summary@, paid: paid@, free: free@, older: older@ }),
        ),
{
    match step {
        CreditStep::Newer => {
            if needs_refresh_after(acc, summary, paid, free) {
                CreditStep::NewerAgain
            } else {
                newer_or_older(summary, paid, free, false)
            }
        },
        CreditStep::NewerAgain => newer_or_older(summary, paid, free, true),
        CreditStep::Older { renewed } => {
            if retries_legacy(acc, older, renewed) {
                CreditStep::OlderAgain
            } else {
                CreditStep::TellOlder
            }
        },
        CreditStep::OlderAgain => CreditStep::TellOlder,
        CreditStep::TellNewer => CreditStep::TellNewer,
        CreditStep::TellOlder => CreditStep::TellOlder,
    }
}

/// The token is renewed in this step.
pub open spec fn renews(step: CreditStep) -> bool {
    step is NewerAgain || step is OlderAgain
}

/// The step of a query after `n` others, by what was known at each.
pub open spec fn step_at(start: CreditStep, seen: Seq<AnswersV>, n: int) -> CreditStep
    decreases n,
{
    if n <= 0 {
        start
    } else {
        after_step(step_at(start, seen, n - 1), seen[n - 1])
    }
}

proof fn no_renewal_follows(start: CreditStep, seen: Seq<AnswersV>, i: int, j: int)
    requires
        0 <= i < j,
        renews(step_at(start, seen, i)),
    ensures
        !renews(step_at(start, seen, j)),
        step_at(start, seen, j) == (CreditStep::Older { renewed: true }) || step_at(start, seen, j) is TellNewer
            || step_at(start, seen, j) is TellOlder,
    decreases j - i,
{
    if j > i + 1 {
        no_renewal_follows(start, seen, i, j - 1);
    }
}

/// A query renews the token at most once, whatever the answers are: a second renewal
/// would be made with a token that the first has used up.
pub proof fn one_renewal_per_query(start: CreditStep, seen: Seq<AnswersV>, i: int, j: int)
    requires
        0 <= i < j,
        renews(step_at(start, seen, i)),
    ensures
        !renews(step_at(start, seen, j)),
{
    no_renewal_follows(start, seen, i, j);
}

/// A query comes to an end: after four steps at most there is something to tell.
pub proof fn query_ends(start: CreditStep, seen: Seq<AnswersV>)
    ensures
        step_at(start, seen, 4) is TellNewer || step_at(start, seen, 4) is TellOlder,
{
    reveal_with_fuel(step_at, 5);
}

/// A request on its way: it is sent to one of several paths, or was answered.
#[derive(Debug, Clone, Copy, PartialEq, Eq, Structural)]
pub enum PostStep {
    /// Send it to a path, for the first or for the second time.
    Send { path: usize, again: bool },
    /// The last answer is the answer.
    Answered,
}

/// What comes after an answer: a path is asked a second time where the request did
/// not get through, and the next one where the path does not exist.
pub open spec fn after_post(paths: int, step: PostStep, resp: JsonV) -> PostStep {
    match step {
        PostStep::Send { path, again } => if !again && transport_failed(resp) {
            PostStep::Send { path, again: true }
        } else if path + 1 < paths && config::route_missing(resp) {
            PostStep::Send { path: (path + 1) as usize, again: false }
        } else {
            PostStep::Answered
        },
        PostStep::Answered => PostStep::Answered,
    }
}

/// What comes after an answer to a request that can be sent to several paths.
pub fn post_next(paths: usize, step: PostStep, resp: &Json) -> (r: PostStep)
    ensures
        r == after_post(paths as int, step, resp@),
{
    match step {
        PostStep::Send { path, again } => {
            if !again && is_transport_error(resp) {
                PostStep::Send { path, again: true }
            } else if path < paths && path + 1 < paths && config::is_route_missing(resp) {
                PostStep::Send { path: path + 1, again: false }
            } else {
                PostStep::Answered
            }
        },
        PostStep::Answered => PostStep::Answered,
    }
}

/// A request is sent to every path at most twice, to one after the other, and never
/// beyond the last.
pub proof fn posting_goes_forward(paths: usize, path: usize, again: bool, resp: JsonV)
    requires
        path < paths,
    ensures
        match after_post(paths as int, PostStep::Send { path, again }, resp) {
            PostStep::Send { path: next, again: second } => next < paths && (next == path + 1 && !second || next == path
                && !again && second),
            PostStep::Answered => true,
        },
{
}

/// What is recorded of an account's balance.
pub struct Observed {
    pub id: String,
    pub name: String,
    pub total: Json,
    pub remaining: Json,
    pub variant: WbVariant,
}

/// What is recorded of an account's balance, by what is told of its credits; nothing
/// for an account without an id. The totals are worked out before.
pub fn observed(acc: &Json, told: &Json) -> (r: Option<Observed>)
    ensures
        match (acc@.get_str("id"@), r) {
            (Some(id), Some(o)) => o.id@ == id && o.name@ == account::display_name(acc@) && o.total@
                == json::value_or_null(told@.get("totalCapacity"@)) && o.remaining@ == json::value_or_null(
                told@.get("totalRemaining"@),
            ) && o.variant == variant::variant_in(acc@),
            (None, None) => true,
            _ => false,
        },
{
    match acc.get_str("id") {
        Some(id) => Some(
            Observed {
                id: id.to_owned(),
                name: account::account_display_name(acc),
                total: Json::or_null(told.get("totalCapacity")),
                remaining: Json::or_null(told.get("totalRemaining")),
                variant: account::variant_of(acc),
            },
        ),
        None => None,
    }
}

/// What the older answer comes to: the packages it lists, or what is told where
/// it lists none.
pub fn legacy_credit_result(acc: &Json, response: &Json) -> (r: Result<Vec<Json>, Json>)
    ensures
        match (succeeded(response@), listed(response@, "Accounts"@, "accounts"@)) {
            (true, Some(s)) => r matches Ok(l) && json::list_view(l@) == s,
            _ => r matches Err(j) && j@ == no_credits(acc@, error_of(response@)),
        },
{
    if is_success(response) && has_resource_accounts(response) {
        Ok(resource_accounts(response))
    } else {
        let error: String = response_error(response);
        Err(credit_failure(acc, error.as_str()))
    }
}

} // verus!
