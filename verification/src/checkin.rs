//! Checking in: who is due when, what the answers mean, what is logged.
//!
//! Only the domestic edition has check-ins; for the international one nothing is
//! ever asked. With a time window set, every account has a moment of its own in
//! it each day, and is due once that moment has passed without an answer.
use vstd::prelude::*;
use std::hash::BuildHasher;
use crate::account;
use crate::clock;
use crate::clock::LocalDays;
use crate::config;
use crate::credits;
use crate::json;
use crate::json::{Json, JsonV};
use crate::refresh;
use crate::text;
use crate::text::same;
use crate::variant;
use crate::variant::WbVariant;

verus! {

/// The usual time between two rounds, in milliseconds.
pub const CHECKIN_RECOVERY_INTERVAL: u64 = 1_800_000;

/// The time until a round is tried again after errors, in milliseconds.
pub const FAST_RETRY_INTERVAL: u64 = 300_000;

/// How often a round is tried again quickly.
pub const FAST_RETRY_MAX: u32 = 12;

/// The least time between two rounds, in milliseconds.
pub const MIN_CYCLE_DELAY: u64 = 60_000;

/// Why a round is run.
#[derive(Clone, Copy, Debug, PartialEq, Eq, Structural)]
pub enum CheckinCycleMode {
    /// The program was started.
    StartupVerify,
    /// Its time has come again.
    PeriodicRecovery,
}

/// What a status means for an account.
#[derive(Debug, PartialEq, Eq)]
pub enum StatusDecision {
    /// It has checked in today.
    Already,
    /// It has to check in.
    Submit,
    /// Nothing can be done.
    Error(String),
}

/// What a status means for an account.
pub enum DecisionV {
    Already,
    Submit,
    Error(Seq<char>),
}

impl StatusDecision {
    pub open spec fn view(&self) -> DecisionV {
        match self {
            StatusDecision::Already => DecisionV::Already,
            StatusDecision::Submit => DecisionV::Submit,
            StatusDecision::Error(e) => DecisionV::Error(e@),
        }
    }
}

/// How an account is told apart: by its identifier, else by its name.
pub open spec fn key_of(acc: JsonV) -> Seq<char> {
    match acc.get_str("id"@) {
        Some(id) => if id.len() > 0 {
            id
        } else {
            account::display_name(acc)
        },
        None => account::display_name(acc),
    }
}

/// How an account is told apart.
pub fn account_key(acc: &Json) -> (r: String)
    ensures
        r@ == key_of(acc@),
{
    match acc.get_str("id") {
        Some(id) => {
            if !id.is_empty() {
                return id.to_owned();
            }
        },
        None => {},
    }
    account::account_display_name(acc)
}

/// The accounts that are checking in.
pub struct RunningAccounts {
    keys: Vec<String>,
}

/// The keys of a list.
pub closed spec fn keys_view(s: Seq<String>) -> Set<Seq<char>>
    decreases s.len(),
{
    if s.len() == 0 {
        Set::empty()
    } else {
        keys_view(s.subrange(0, s.len() - 1)).insert(s[s.len() - 1]@)
    }
}

proof fn keys_contain(s: Seq<String>, key: Seq<char>)
    ensures
        keys_view(s).contains(key) <==> exists|i: int| 0 <= i < s.len() && (#[trigger] s[i])@ == key,
    decreases s.len(),
{
    if s.len() > 0 {
        let t = s.subrange(0, s.len() - 1);
        keys_contain(t, key);
        if exists|i: int| 0 <= i < s.len() && (#[trigger] s[i])@ == key {
            let i = choose|i: int| 0 <= i < s.len() && (#[trigger] s[i])@ == key;
            if i < t.len() {
                assert(t[i]@ == key);
            }
        }
        if exists|i: int| 0 <= i < t.len() && (#[trigger] t[i])@ == key {
            let i = choose|i: int| 0 <= i < t.len() && (#[trigger] t[i])@ == key;
            assert(s[i]@ == key);
        }
        if s[s.len() - 1]@ == key {
            assert(s[s.len() - 1]@ == key);
        }
    }
}

/// Stands for an account that is checking in.
pub struct AccountRunGuard {
    pub key: String,
}

impl RunningAccounts {
    pub closed spec fn view(&self) -> Set<Seq<char>> {
        keys_view(self.keys@)
    }

    /// None.
    pub fn new() -> (r: RunningAccounts)
        ensures
            r@ == Set::<Seq<char>>::empty(),
    {
        RunningAccounts { keys: Vec::new() }
    }

    fn holds(&self, key: &str) -> (b: bool)
        ensures
            b == self@.contains(key@),
    {
        let mut i: usize = 0;
        while i < self.keys.len()
            invariant
                i <= self.keys@.len(),
                forall|j: int| 0 <= j < i ==> (#[trigger] self.keys@[j])@ != key@,
            decreases self.keys@.len() - i,
        {
            if same(self.keys[i].as_str(), key) {
                proof {
                    keys_contain(self.keys@, key@);
                    assert(self.keys@[i as int]@ == key@);
                }
                return true;
            }
            i += 1;
        }
        proof {
            keys_contain(self.keys@, key@);
        }
        false
    }
}

impl AccountRunGuard {
    /// Begins an account's check-in, unless it is checking in already.
    pub fn try_acquire(running: &mut RunningAccounts, acc: &Json) -> (r: Option<AccountRunGuard>)
        ensures
            match r {
                Some(g) => !old(running)@.contains(key_of(acc@)) && g.key@ == key_of(acc@) && final(running)@ == old(
                    running,
                )@.insert(key_of(acc@)),
                None => old(running)@.contains(key_of(acc@)) && final(running)@ == old(running)@,
            },
    {
        let key: String = account_key(acc);
        if running.holds(key.as_str()) {
            return None;
        }
        let ghost before = running.keys@;
        running.keys.push(key.clone());
        assert(running.keys@.subrange(0, running.keys@.len() - 1) =~= before);
        Some(AccountRunGuard { key })
    }

    /// Ends an account's check-in.
    pub fn release(self, running: &mut RunningAccounts)
        ensures
            final(running)@ == old(running)@.remove(self.key@),
    {
        let ghost all = running.keys@;
        let mut rest: Vec<String> = Vec::new();
        let mut i: usize = 0;
        assert(keys_view(rest@) =~= keys_view(all.subrange(0, 0)).remove(self.key@));
        while i < running.keys.len()
            invariant
                i <= running.keys@.len(),
                running.keys@ == all,
                keys_view(rest@) == keys_view(all.subrange(0, i as int)).remove(self.key@),
            decreases running.keys@.len() - i,
        {
            assert(all.subrange(0, i + 1).subrange(0, i as int) =~= all.subrange(0, i as int));
            let ghost held = rest@;
            if !same(running.keys[i].as_str(), self.key.as_str()) {
                rest.push(running.keys[i].clone());
                assert(rest@.subrange(0, rest@.len() - 1) =~= held);
                assert(keys_view(rest@) =~= keys_view(all.subrange(0, i + 1)).remove(self.key@));
            } else {
                assert(keys_view(rest@) =~= keys_view(all.subrange(0, i + 1)).remove(self.key@));
            }
            i += 1;
        }
        assert(all.subrange(0, all.len() as int) =~= all);
        running.keys = rest;
    }
}

/// What an answer says, in its message or its msg; none where it is no text.
pub open spec fn message_in(resp: JsonV) -> Option<Seq<char>> {
    match (if resp.get("message"@) is Some {
        resp.get("message"@)
    } else {
        resp.get("msg"@)
    }) {
        Some(JsonV::Str(s)) => Some(s),
        _ => None,
    }
}

fn message_of(resp: &Json) -> (r: Option<&str>)
    ensures
        json::opt_text(r) == message_in(resp@),
{
    match resp.get("message") {
        Some(m) => m.as_str(),
        None => match resp.get("msg") {
            Some(m) => m.as_str(),
            None => None,
        },
    }
}

/// Whether an answer means that the token is not accepted.
pub open spec fn unauthorized(resp: JsonV) -> bool {
    let code = refresh::code_of(resp);
    code == 401 || code == 403 || credits::speaks_of_login(
        text::lowercase_of(account::or_empty(message_in(resp))),
    )
}

/// Whether an answer means that the token is not accepted.
pub fn is_unauthorized(resp: &Json) -> (b: bool)
    ensures
        b == unauthorized(resp@),
{
    let code: i64 = refresh::response_code(resp);
    if code == 401 || code == 403 {
        return true;
    }
    let said: String = match message_of(resp) {
        Some(s) => s.to_owned(),
        None => String::new(),
    };
    credits::says_unauthorized(text::lowercase(said.as_str()).as_str())
}

/// Whether a message in lower case says that the edition has no check-ins.
pub open spec fn speaks_of_inactive(message: Seq<char>) -> bool {
    text::has(message, "未开启"@) || text::has(message, "未开放"@) || text::has(message, "已过期"@) || text::has(
        message,
        "inactive"@,
    ) || text::has(message, "not enabled"@) || text::has(message, "not available"@)
}

/// Whether a message in lower case says that the edition has no check-ins.
pub fn says_inactive(message: &str) -> (b: bool)
    ensures
        b == speaks_of_inactive(message@),
{
    text::contains_text(message, "未开启") || text::contains_text(message, "未开放") || text::contains_text(
        message,
        "已过期",
    ) || text::contains_text(message, "inactive") || text::contains_text(message, "not enabled")
        || text::contains_text(message, "not available")
}

/// Whether a message says that the edition has no check-ins.
pub fn is_inactive_message(message: &str) -> (b: bool)
    ensures
        b == speaks_of_inactive(text::lowercase_of(message@)),
{
    says_inactive(text::lowercase(message).as_str())
}

/// Whether an answer is taken as it is: for the international edition one that
/// says that there are no check-ins, which is no refusal of the token.
pub open spec fn final_as_is(v: WbVariant, resp: JsonV) -> bool {
    v == WbVariant::Ai && speaks_of_inactive(text::lowercase_of(account::or_empty(message_in(resp))))
}

/// Whether an answer is taken as it is, before a renewal of the token is thought of.
pub fn skips_refresh_before_retry(v: WbVariant, resp: &Json) -> (b: bool)
    ensures
        b == final_as_is(v, resp@),
{
    if v != WbVariant::Ai {
        return false;
    }
    let said: String = match message_of(resp) {
        Some(s) => s.to_owned(),
        None => String::new(),
    };
    is_inactive_message(said.as_str())
}

/// Whether a request is sent once more with a renewed token.
pub fn retries_with_new_token(v: WbVariant, acc: &Json, resp: &Json) -> (b: bool)
    ensures
        b == (!final_as_is(v, resp@) && unauthorized(resp@) && refresh::text_or_empty(acc@, "refresh_token"@).len()
            > 0),
{
    !skips_refresh_before_retry(v, resp) && is_unauthorized(resp) && !refresh::get_text(
        acc,
        "refresh_token",
    ).as_str().is_empty()
}

/// A check-in request on its way: it is sent to one of several paths, or was answered.
#[derive(Debug, Clone, Copy, PartialEq, Eq, Structural)]
pub enum AskStep {
    /// Send it to a path; with a token renewed just before, where that is said.
    Send { path: usize, renewed: bool },
    /// The last answer is the answer.
    Answered,
}

/// What comes after an answer to a check-in request: the same path once more with a
/// renewed token where the token was refused, the next path where this one does not
/// exist.
pub open spec fn after_ask(v: WbVariant, acc: JsonV, paths: int, step: AskStep, resp: JsonV) -> AskStep {
    match step {
        AskStep::Send { path, renewed } => if !renewed && !final_as_is(v, resp) && unauthorized(resp)
            && refresh::text_or_empty(acc, "refresh_token"@).len() > 0 {
            AskStep::Send { path, renewed: true }
        } else if path + 1 < paths && config::route_missing(resp) {
            AskStep::Send { path: (path + 1) as usize, renewed: false }
        } else {
            AskStep::Answered
        },
        AskStep::Answered => AskStep::Answered,
    }
}

/// What comes after an answer to a check-in request.
pub fn ask_next(v: WbVariant, acc: &Json, paths: usize, step: AskStep, resp: &Json) -> (r: AskStep)
    ensures
        r == after_ask(v, acc@, paths as int, step, resp@),
{
    match step {
        AskStep::Send { path, renewed } => {
            if !renewed && retries_with_new_token(v, acc, resp) {
                AskStep::Send { path, renewed: true }
            } else if path < paths && path + 1 < paths && config::is_route_missing(resp) {
                AskStep::Send { path: path + 1, renewed: false }
            } else {
                AskStep::Answered
            }
        },
        AskStep::Answered => AskStep::Answered,
    }
}

/// Another path is asked only where this one does not exist: a refused token, a
/// blocked client or a request that did not get through is answered as it is. What
/// says of the international edition that it has no check-ins never renews a token.
pub proof fn only_missing_paths_are_passed(
    v: WbVariant,
    acc: JsonV,
    paths: usize,
    path: usize,
    renewed: bool,
    resp: JsonV,
)
    requires
        path < paths,
    ensures
        match after_ask(v, acc, paths as int, AskStep::Send { path, renewed }, resp) {
            AskStep::Send { path: next, renewed: again } => {
                &&& next < paths
                &&& next != path ==> next == path + 1 && !again && config::route_missing(resp)
                &&& next == path ==> again && !renewed && !final_as_is(v, resp)
            },
            AskStep::Answered => true,
        },
{
}

/// The answer where there is no path to ask for check-ins.
pub fn no_checkin_path() -> (r: Json)
    ensures
        r@ == JsonV::empty().put("code"@, JsonV::Int(-1)).put("message"@, JsonV::Str("无可用签到路径"@)),
{
    Json::object().put("code", Json::num(-1)).put("message", Json::text("无可用签到路径"))
}

/// The addresses that a check-in request tries, one after the other.
pub fn checkin_urls(acc: &Json, suffix: &str) -> (r: Vec<String>)
    ensures
        ({
            let v = variant::variant_in(acc@);
            variant::strings(r@) == v.candidates(config::CHECKIN_API_PREFIX@ + suffix@).map_values(
                |p: Seq<char>| v.endpoint() + p,
            )
        }),
{
    let v: WbVariant = account::variant_of(acc);
    let path: String = text::concat(config::CHECKIN_API_PREFIX, suffix);
    let paths: Vec<String> = v.billing_paths(path.as_str());
    let ghost all = variant::strings(paths@);
    let mut urls: Vec<String> = Vec::new();
    let mut i: usize = 0;
    while i < paths.len()
        invariant
            i <= paths@.len(),
            all == variant::strings(paths@),
            urls@.len() == i,
            forall|j: int| 0 <= j < i ==> (#[trigger] urls@[j])@ == v.endpoint() + all[j],
        decreases paths@.len() - i,
    {
        urls.push(text::concat(v.api_endpoint(), paths[i].as_str()));
        i += 1;
    }
    assert(variant::strings(urls@) =~= all.map_values(|p: Seq<char>| v.endpoint() + p));
    urls
}

/// The status that a successful answer tells.
pub open spec fn status_in(resp: JsonV) -> Option<JsonV> {
    let code = refresh::code_of(resp);
    if code != 0 && code != 200 {
        None
    } else {
        let data = refresh::data_of(resp);
        Some(
            JsonV::empty().put("ok"@, JsonV::Bool(true)).put(
                "todayCheckedIn"@,
                JsonV::Bool(
                    match (if data.get("today_checked_in"@) is Some {
                        data.get("today_checked_in"@)
                    } else {
                        data.get("todayCheckedIn"@)
                    }) {
                        Some(JsonV::Bool(b)) => b,
                        _ => false,
                    },
                ),
            ).put("raw"@, data),
        )
    }
}

/// The status that a successful answer tells; none for any other.
pub fn status_from_response(resp: &Json) -> (r: Option<Json>)
    ensures
        account::opt_json(r) == status_in(resp@),
{
    let code: i64 = refresh::response_code(resp);
    if code != 0 && code != 200 {
        return None;
    }
    let data: Json = refresh::response_data(resp);
    let value: Option<&Json> = match data.get("today_checked_in") {
        Some(x) => Some(x),
        None => data.get("todayCheckedIn"),
    };
    let checked: bool = match value {
        Some(x) => match x.as_bool() {
            Some(b) => b,
            None => false,
        },
        None => false,
    };
    Some(
        Json::object().put("ok", Json::Bool(true)).put("todayCheckedIn", Json::Bool(checked)).put("raw", data),
    )
}

/// What a failed answer says, else its code.
pub open spec fn failure_text(resp: JsonV) -> Seq<char> {
    match message_in(resp) {
        Some(s) => s,
        None => "code="@ + text::int_text(refresh::code_of(resp)),
    }
}

fn failure_of(resp: &Json) -> (r: String)
    ensures
        r@ == failure_text(resp@),
{
    match message_of(resp) {
        Some(s) => s.to_owned(),
        None => {
            let code: String = text::text_of_i64(refresh::response_code(resp));
            text::concat("code=", code.as_str())
        },
    }
}

/// An account's status, by the answers of the newer and the older request.
pub open spec fn status_of(acc: JsonV, first: JsonV, second: JsonV) -> JsonV {
    if variant::variant_in(acc) != WbVariant::Cn {
        JsonV::empty().put("ok"@, JsonV::Bool(false)).put("statusUnsupported"@, JsonV::Bool(true)).put(
            "error"@,
            JsonV::Str("该档位暂无签到状态接口"@),
        )
    } else {
        match (status_in(first), status_in(second)) {
            (Some(s), _) => s,
            (None, Some(s)) => s,
            (None, None) => JsonV::empty().put("ok"@, JsonV::Bool(false)).put(
                "error"@,
                JsonV::Str(failure_text(second)),
            ),
        }
    }
}

/// The status of an account that nothing is asked for; none where its status is asked for.
pub fn unsupported_status(acc: &Json) -> (r: Option<Json>)
    ensures
        match r {
            Some(j) => variant::variant_in(acc@) != WbVariant::Cn && forall|first: JsonV, second: JsonV|
                j@ == #[trigger] status_of(acc@, first, second),
            None => variant::variant_in(acc@) == WbVariant::Cn,
        },
{
    if account::variant_of(acc) == WbVariant::Cn {
        return None;
    }
    Some(
        Json::object().put("ok", Json::Bool(false)).put("statusUnsupported", Json::Bool(true)).put(
            "error",
            Json::text("该档位暂无签到状态接口"),
        ),
    )
}

/// An account's status, by the answers of the newer and the older request. The
/// older one counts where the newer one failed.
pub fn get_checkin_status(acc: &Json, first: &Json, second: &Json) -> (r: Json)
    ensures
        r@ == status_of(acc@, first@, second@),
{
    match unsupported_status(acc) {
        Some(s) => {
            return s;
        },
        None => {},
    }
    match status_from_response(first) {
        Some(s) => {
            return s;
        },
        None => {},
    }
    match status_from_response(second) {
        Some(s) => s,
        None => {
            let error: String = failure_of(second);
            Json::object().put("ok", Json::Bool(false)).put("error", Json::text(error.as_str()))
        },
    }
}

/// What a check-in came to: done, done before, not to be had for the edition, or failed.
pub open spec fn checkin_in(v: WbVariant, resp: JsonV) -> JsonV {
    let code = refresh::code_of(resp);
    let said = failure_text(resp);
    if code == 0 || code == 200 {
        JsonV::empty().put("ok"@, JsonV::Bool(true)).put("raw"@, refresh::data_of(resp))
    } else if text::has(said, "已签到"@) || text::has(text::lowercase_of(said), "repeat"@) {
        JsonV::empty().put("ok"@, JsonV::Bool(true)).put("already"@, JsonV::Bool(true)).put(
            "message"@,
            JsonV::Str(said),
        )
    } else if v == WbVariant::Ai && speaks_of_inactive(text::lowercase_of(said)) {
        JsonV::empty().put("ok"@, JsonV::Bool(false)).put("inactive"@, JsonV::Bool(true)).put(
            "message"@,
            JsonV::Str(said),
        )
    } else {
        JsonV::empty().put("ok"@, JsonV::Bool(false)).put("error"@, JsonV::Str(said))
    }
}

/// What a check-in came to, by the answer to it.
pub fn perform_checkin(v: WbVariant, resp: &Json) -> (r: Json)
    ensures
        r@ == checkin_in(v, resp@),
{
    let code: i64 = refresh::response_code(resp);
    if code == 0 || code == 200 {
        return Json::object().put("ok", Json::Bool(true)).put("raw", refresh::response_data(resp));
    }
    let said: String = failure_of(resp);
    let repeated: bool = text::contains_text(said.as_str(), "已签到") || text::contains_text(
        text::lowercase(said.as_str()).as_str(),
        "repeat",
    );
    if repeated {
        return Json::object().put("ok", Json::Bool(true)).put("already", Json::Bool(true)).put(
            "message",
            Json::text(said.as_str()),
        );
    }
    if v == WbVariant::Ai && is_inactive_message(said.as_str()) {
        return Json::object().put("ok", Json::Bool(false)).put("inactive", Json::Bool(true)).put(
            "message",
            Json::text(said.as_str()),
        );
    }
    Json::object().put("ok", Json::Bool(false)).put("error", Json::text(said.as_str()))
}

/// What a status means: one that cannot be had does not keep from checking in.
pub open spec fn decision(status: JsonV) -> DecisionV {
    if status.get_bool("statusUnsupported"@) == Some(true) {
        DecisionV::Submit
    } else if status.get_bool("ok"@) != Some(true) {
        DecisionV::Error(
            match status.get_str("error"@) {
                Some(e) => e,
                None => "查询签到状态失败"@,
            },
        )
    } else if status.get_bool("todayCheckedIn"@) == Some(true) {
        DecisionV::Already
    } else {
        DecisionV::Submit
    }
}

fn is_true(v: &Json, key: &str) -> (b: bool)
    ensures
        b == (v@.get_bool(key@) == Some(true)),
{
    match v.get_bool(key) {
        Some(x) => x,
        None => false,
    }
}

/// What a status means.
pub fn decide_from_status(status: &Json) -> (r: StatusDecision)
    ensures
        r@ == decision(status@),
{
    if is_true(status, "statusUnsupported") {
        return StatusDecision::Submit;
    }
    if !is_true(status, "ok") {
        return match status.get_str("error") {
            Some(e) => StatusDecision::Error(e.to_owned()),
            None => StatusDecision::Error("查询签到状态失败".to_owned()),
        };
    }
    if is_true(status, "todayCheckedIn") {
        StatusDecision::Already
    } else {
        StatusDecision::Submit
    }
}

/// What an account's check-in answers before anything is asked.
pub open spec fn refusal_before(acc: JsonV, running: bool) -> Option<JsonV> {
    if running {
        Some(
            JsonV::empty().put("result"@, JsonV::Str("error"@)).put(
                "error"@,
                JsonV::Str("该账号正在签到，请稍后再试"@),
            ),
        )
    } else if variant::variant_in(acc) != WbVariant::Cn {
        Some(
            JsonV::empty().put("result"@, JsonV::Str("skipped"@)).put(
                "reason"@,
                JsonV::Str("unsupported_variant"@),
            ),
        )
    } else {
        None
    }
}

/// What an account's check-in answers before anything is asked: it is under way,
/// or the edition has none. None where it goes on.
pub fn checkin_refusal(acc: &Json, running: bool) -> (r: Option<Json>)
    ensures
        account::opt_json(r) == refusal_before(acc@, running),
{
    if running {
        return Some(
            Json::object().put("result", Json::text("error")).put(
                "error",
                Json::text("该账号正在签到，请稍后再试"),
            ),
        );
    }
    if !account::variant_of(acc).supports_checkin() {
        return Some(
            Json::object().put("result", Json::text("skipped")).put("reason", Json::text("unsupported_variant")),
        );
    }
    None
}

/// What an account's check-in answers once its status is known; none where it is submitted.
pub open spec fn answer_to_status(status: JsonV) -> Option<JsonV> {
    match decision(status) {
        DecisionV::Already => Some(JsonV::empty().put("result"@, JsonV::Str("already"@))),
        DecisionV::Error(e) => Some(
            JsonV::empty().put("result"@, JsonV::Str("error"@)).put("error"@, JsonV::Str(e)),
        ),
        DecisionV::Submit => None,
    }
}

/// What an account's check-in answers once its status is known; none where it is
/// submitted. Nothing is logged of it.
pub fn checkin_after_status(status: &Json) -> (r: Option<Json>)
    ensures
        account::opt_json(r) == answer_to_status(status@),
{
    match decide_from_status(status) {
        StatusDecision::Already => Some(Json::object().put("result", Json::text("already"))),
        StatusDecision::Error(e) => Some(
            Json::object().put("result", Json::text("error")).put("error", Json::text(e.as_str())),
        ),
        StatusDecision::Submit => None,
    }
}

/// How a submitted check-in is named.
pub open spec fn result_name(res: JsonV) -> Seq<char> {
    if res.get_bool("ok"@) == Some(true) {
        if res.get_bool("already"@) == Some(true) {
            "already"@
        } else {
            "success"@
        }
    } else {
        "error"@
    }
}

/// Why a submitted check-in failed.
pub open spec fn result_error(res: JsonV) -> Option<Seq<char>> {
    if res.get_bool("ok"@) == Some(true) {
        None
    } else {
        res.get_str("error"@)
    }
}

/// The log entry of a submitted check-in.
pub open spec fn submitted_entry(acc: JsonV, res: JsonV, ts: int) -> JsonV {
    let e = JsonV::empty().put("result"@, JsonV::Str(result_name(res))).put("ts"@, JsonV::Int(ts)).put(
        "accountId"@,
        json::value_or_null(acc.get("id"@)),
    ).put("email"@, JsonV::Str(account::display_name(acc))).put(
        "variant"@,
        JsonV::Str(variant::variant_in(acc).name()),
    );
    match result_error(res) {
        Some(x) => e.put("error"@, JsonV::Str(x)),
        None => e,
    }
}

/// What a submitted check-in answers, and what is logged of it.
pub open spec fn submitted(acc: JsonV, res: JsonV, ts: int) -> (JsonV, Option<JsonV>) {
    if res.get_bool("inactive"@) == Some(true) {
        (
            JsonV::empty().put("result"@, JsonV::Str("inactive"@)).put("inactive"@, JsonV::Bool(true)).put(
                "message"@,
                json::value_or_null(res.get("message"@)),
            ),
            None,
        )
    } else {
        (
            JsonV::empty().put("result"@, JsonV::Str(result_name(res))).put(
                "error"@,
                json::text_or_null(result_error(res)),
            ),
            Some(submitted_entry(acc, res, ts)),
        )
    }
}

/// What a submitted check-in answers, and what is logged of it, by what it came
/// to. An edition without check-ins is neither success nor failure: nothing is
/// logged of it.
pub fn checkin_account(acc: &Json, res: &Json, ts: i64) -> (r: (Json, Option<Json>))
    ensures
        (r.0@, account::opt_json(r.1)) == submitted(acc@, res@, ts as int),
{
    if is_true(res, "inactive") {
        return (
            Json::object().put("result", Json::text("inactive")).put("inactive", Json::Bool(true)).put(
                "message",
                Json::or_null(res.get("message")),
            ),
            None,
        );
    }
    let ok: bool = is_true(res, "ok");
    let result: &str = if ok {
        if is_true(res, "already") {
            "already"
        } else {
            "success"
        }
    } else {
        "error"
    };
    let error: Option<&str> = if ok {
        None
    } else {
        res.get_str("error")
    };
    let name: String = account::account_display_name(acc);
    let entry: Json = Json::object().put("result", Json::text(result)).put("ts", Json::num(ts)).put(
        "accountId",
        Json::or_null(acc.get("id")),
    ).put("email", Json::text(name.as_str())).put("variant", Json::text(account::variant_of(acc).as_str()));
    let entry: Json = match error {
        Some(e) => entry.put("error", Json::text(e)),
        None => entry,
    };
    (
        Json::object().put("result", Json::text(result)).put("error", Json::opt_text(error)),
        Some(entry),
    )
}

/// Whether an account's automatic check-in is switched off: only its own
/// identifier does that.
pub open spec fn excluded(acc: JsonV, cfg: JsonV) -> bool {
    match (acc.get_str("id"@), cfg.get_arr("excluded_account_ids"@)) {
        (Some(id), Some(ids)) => ids.contains(JsonV::Str(id)),
        _ => false,
    }
}

/// Whether an account's automatic check-in is switched off.
pub fn auto_checkin_excluded(acc: &Json, cfg: &Json) -> (b: bool)
    ensures
        b == excluded(acc@, cfg@),
{
    match (acc.get_str("id"), cfg.get_arr("excluded_account_ids")) {
        (Some(id), Some(ids)) => {
            let ghost all = json::list_view(ids@);
            let mut i: usize = 0;
            while i < ids.len()
                invariant
                    i <= ids@.len(),
                    all == json::list_view(ids@),
                    acc@.get_str("id"@) == Some(id@),
                    cfg@.get_arr("excluded_account_ids"@) == Some(all),
                    forall|j: int| 0 <= j < i ==> #[trigger] all[j] != JsonV::Str(id@),
                decreases ids@.len() - i,
            {
                assert(all[i as int] == ids@[i as int]@);
                let hit: bool = match ids[i].as_str() {
                    Some(t) => same(t, id),
                    None => false,
                };
                if hit {
                    assert(all[i as int] == JsonV::Str(id@));
                    return true;
                }
                i += 1;
            }
            false
        },
        _ => false,
    }
}

/// Whether an account checks in by itself.
pub open spec fn allowed(acc: JsonV, cfg: JsonV) -> bool {
    variant::variant_in(acc) == WbVariant::Cn && !excluded(acc, cfg)
}

/// Whether an account checks in by itself.
pub fn allows_auto_checkin(acc: &Json, cfg: &Json) -> (b: bool)
    ensures
        b == allowed(acc@, cfg@),
{
    account::variant_of(acc).supports_checkin() && !auto_checkin_excluded(acc, cfg)
}

/// What is answered for an account whose automatic check-in is switched off, in
/// place of whatever was to be done; none where it is done.
pub fn auto_checkin_skip(acc: &Json, cfg: &Json) -> (r: Option<Json>)
    ensures
        account::opt_json(r) == (if excluded(acc@, cfg@) {
            Some(
                JsonV::empty().put("ok"@, JsonV::Bool(false)).put("result"@, JsonV::Str("skipped"@)).put(
                    "reason"@,
                    JsonV::Str("auto_checkin_disabled"@),
                ),
            )
        } else {
            None
        }),
{
    if auto_checkin_excluded(acc, cfg) {
        Some(
            Json::object().put("ok", Json::Bool(false)).put("result", Json::text("skipped")).put(
                "reason",
                Json::text("auto_checkin_disabled"),
            ),
        )
    } else {
        None
    }
}

/// The accounts that check in by themselves.
pub open spec fn allowed_in(accounts: Seq<JsonV>, cfg: JsonV) -> Seq<JsonV>
    decreases accounts.len(),
{
    if accounts.len() == 0 {
        Seq::empty()
    } else {
        let rest = allowed_in(accounts.subrange(0, accounts.len() - 1), cfg);
        let a = accounts[accounts.len() - 1];
        if allowed(a, cfg) {
            rest.push(a)
        } else {
            rest
        }
    }
}

/// The accounts that check in by themselves.
pub fn auto_checkin_accounts(accounts: &[Json], cfg: &Json) -> (r: Vec<Json>)
    ensures
        json::list_view(r@) == allowed_in(json::list_view(accounts@), cfg@),
{
    let ghost all = json::list_view(accounts@);
    let mut out: Vec<Json> = Vec::new();
    let mut i: usize = 0;
    assert(json::list_view(out@) =~= allowed_in(all.subrange(0, 0), cfg@));
    while i < accounts.len()
        invariant
            i <= accounts@.len(),
            all == json::list_view(accounts@),
            json::list_view(out@) == allowed_in(all.subrange(0, i as int), cfg@),
        decreases accounts@.len() - i,
    {
        assert(all.subrange(0, i + 1).subrange(0, i as int) =~= all.subrange(0, i as int));
        assert(all[i as int] == accounts@[i as int]@);
        if allows_auto_checkin(&accounts[i], cfg) {
            let ghost held = out@;
            out.push(accounts[i].clone());
            assert(json::list_view(out@) =~= json::list_view(held).push(all[i as int]));
        }
        i += 1;
    }
    assert(all.subrange(0, all.len() as int) =~= all);
    out
}

/// The time window of the settings, in minutes of the day: both ends must be
/// times of day, the start before the end.
pub open spec fn window_of(cfg: JsonV) -> Option<(int, int)> {
    match (cfg.get_str("checkin_start"@), cfg.get_str("checkin_end"@)) {
        (Some(a), Some(b)) => match (config::clock_minutes(a), config::clock_minutes(b)) {
            (Some(start), Some(end)) => if start < end {
                Some((start, end))
            } else {
                None
            },
            _ => None,
        },
        _ => None,
    }
}

/// The time window of the settings, in minutes of the day.
pub fn window_minutes(cfg: &Json) -> (r: Option<(u32, u32)>)
    ensures
        match r {
            Some(w) => window_of(cfg@) == Some((w.0 as int, w.1 as int)) && w.0 < w.1 < 1440,
            None => window_of(cfg@) is None,
        },
{
    match (cfg.get_str("checkin_start"), cfg.get_str("checkin_end")) {
        (Some(a), Some(b)) => match (config::parse_clock(a), config::parse_clock(b)) {
            (Some(start), Some(end)) => {
                if start < end {
                    Some((start, end))
                } else {
                    None
                }
            },
            _ => None,
        },
        _ => None,
    }
}

/// What `std::hash::DefaultHasher` makes of a day and an account.
pub uninterp spec fn draw_of(day: Seq<char>, key: Seq<char>) -> u64;

/// `std::hash::BuildHasher::hash_one` with a `DefaultHasher` as `Default` makes it,
/// whose keys are fixed: a number that depends on the two texts alone. Which one
/// it is is left unsaid.
#[verifier::external_body]
fn draw(day: &str, key: &str) -> (r: u64)
    ensures
        r == draw_of(day@, key@),
{
    std::hash::BuildHasherDefault::<std::hash::DefaultHasher>::default().hash_one((day, key))
}

/// The minute of the day that is drawn for an account.
pub open spec fn minute_of(draw: u64, start: int, end: int) -> int {
    start + (draw as int) % (end - start)
}

/// The minute of the day that a drawn number gives, within the window.
pub fn drawn_minute(draw: u64, start: u32, end: u32) -> (m: u32)
    requires
        start < end,
    ensures
        m == minute_of(draw, start as int, end as int),
        start <= m < end,
{
    let width: u64 = (end - start) as u64;
    let rest: u64 = draw % width;
    start + rest as u32
}

/// The minute of the day that is drawn for an account: the same for a day and an
/// account, whatever happens, and within the window.
pub fn target_minute(day: &str, key: &str, start: u32, end: u32) -> (m: u32)
    requires
        start < end,
    ensures
        m == minute_of(draw_of(day@, key@), start as int, end as int),
        start <= m < end,
{
    drawn_minute(draw(day, key), start, end)
}

/// What local clocks show at a minute of a day, where there is such a day and minute.
pub open spec fn wall_at(day: Option<i32>, minute: int) -> Option<int> {
    match day {
        Some(d) => if minute < 1440 {
            Some((d - clock::EPOCH_DAY) * 86_400_000 + minute * 60_000)
        } else {
            None
        },
        None => None,
    }
}

/// What local clocks show at a minute of a day.
pub fn wall_of_minute(day: &str, minute: u32) -> (r: Option<i64>)
    ensures
        json::opt_int(r) == wall_at(clock::day_of_text(day@), minute as int),
{
    match clock::parse_day(day) {
        Some(d) => {
            if minute < 1440 {
                Some((d as i64 - clock::EPOCH_DAY) * 86_400_000 + minute as i64 * 60_000)
            } else {
                None
            }
        },
        None => None,
    }
}

/// The first instant at which local clocks show a minute of a day, by the
/// machine's time zone.
pub fn target_at(day: &str, minute: u32) -> (r: Option<i64>)
    ensures
        match wall_at(clock::day_of_text(day@), minute as int) {
            Some(w) => r matches Some(t) ==> clock::may_show(t as int, w),
            None => r is None,
        },
{
    match wall_of_minute(day, minute) {
        Some(w) => match clock::local_instant(w) {
            Some((t, _)) => Some(t),
            None => None,
        },
        None => None,
    }
}

/// An account's moments on three days that follow each other.
#[derive(Debug, Clone, Copy, PartialEq, Eq)]
pub struct Targets {
    pub before: Option<i64>,
    pub today: Option<i64>,
    pub after: Option<i64>,
}

/// The day `by` days away, in writing, where both are days of the calendar.
pub open spec fn shifted(day: Seq<char>, delta: int) -> Option<Seq<char>> {
    match clock::day_of_text(day) {
        Some(d) => if clock::FIRST_DAY <= d + delta <= clock::LAST_DAY {
            Some(clock::text_of_day((d + delta) as i32))
        } else {
            None
        },
        None => None,
    }
}

/// The day some days away, in writing.
pub fn shift_day(day: &str, delta: i64) -> (r: Option<String>)
    ensures
        json::opt_string(r) == shifted(day@, delta as int),
{
    match clock::parse_day(day) {
        Some(d) => {
            if clock::FIRST_DAY as i64 - d as i64 <= delta && delta <= clock::LAST_DAY as i64 - d as i64 {
                Some(clock::day_text((d as i64 + delta) as i32))
            } else {
                None
            }
        },
        None => None,
    }
}

/// An account's moment on a day may be the instant: local clocks can show the minute
/// drawn for it then. Where the day or the minute is none, there is no moment.
pub open spec fn may_be_target(day: Seq<char>, acc: JsonV, win: (u32, u32), at: Option<int>) -> bool {
    match wall_at(
        clock::day_of_text(day),
        minute_of(draw_of(day, key_of(acc)), win.0 as int, win.1 as int),
    ) {
        Some(w) => at matches Some(t) ==> clock::may_show(t, w),
        None => at is None,
    }
}

/// An account's moment on a day, by the machine's time zone.
pub fn target_ms_for_day(day: &str, acc: &Json, win: (u32, u32)) -> (r: Option<i64>)
    requires
        win.0 < win.1,
    ensures
        may_be_target(day@, acc@, win, json::opt_int(r)),
{
    let key: String = account_key(acc);
    target_at(day, target_minute(day, key.as_str(), win.0, win.1))
}

/// What local clocks show at an account's moment on a day, where there is such a
/// day and minute.
pub open spec fn reading_on(day: Option<Seq<char>>, acc: JsonV, win: (u32, u32)) -> Option<int> {
    match day {
        Some(d) => wall_at(
            clock::day_of_text(d),
            minute_of(draw_of(d, key_of(acc)), win.0 as int, win.1 as int),
        ),
        None => None,
    }
}

/// What local clocks show at an account's moments on three days that follow each
/// other.
#[derive(Debug, Clone, Copy, PartialEq, Eq)]
pub struct Readings {
    pub before: Option<i64>,
    pub today: Option<i64>,
    pub after: Option<i64>,
}

fn reading_for_day(day: &str, acc: &Json, win: (u32, u32)) -> (r: Option<i64>)
    requires
        win.0 < win.1,
    ensures
        json::opt_int(r) == reading_on(Some(day@), acc@, win),
{
    let key: String = account_key(acc);
    wall_of_minute(day, target_minute(day, key.as_str(), win.0, win.1))
}

/// What local clocks show at an account's moments on a day, the day before and the
/// day after.
pub fn readings_around(today: &str, acc: &Json, win: (u32, u32)) -> (r: Readings)
    requires
        win.0 < win.1,
    ensures
        json::opt_int(r.before) == reading_on(shifted(today@, -1), acc@, win),
        json::opt_int(r.today) == reading_on(Some(today@), acc@, win),
        json::opt_int(r.after) == reading_on(shifted(today@, 1), acc@, win),
{
    let before: Option<i64> = match shift_day(today, -1) {
        Some(d) => reading_for_day(d.as_str(), acc, win),
        None => None,
    };
    let after: Option<i64> = match shift_day(today, 1) {
        Some(d) => reading_for_day(d.as_str(), acc, win),
        None => None,
    };
    Readings { before, today: reading_for_day(today, acc, win), after }
}

/// What a time zone finds for the readings of three days: the first instant at
/// which its clocks show each, and whether it is the only one.
#[derive(Debug, Clone, Copy, PartialEq, Eq)]
pub struct Found {
    pub before: Option<(i64, bool)>,
    pub today: Option<(i64, bool)>,
    pub after: Option<(i64, bool)>,
}

/// The moment at a reading, given what a time zone finds for it: the first instant,
/// where there is one.
pub open spec fn moment_at(reading: Option<i64>, found: Option<(i64, bool)>) -> Option<i64> {
    match (reading, found) {
        (Some(_), Some((t, _))) => Some(t),
        _ => None,
    }
}

fn found_moment(reading: Option<i64>, found: Option<(i64, bool)>) -> (r: Option<i64>)
    ensures
        r == moment_at(reading, found),
{
    match (reading, found) {
        (Some(_), Some((t, _))) => Some(t),
        _ => None,
    }
}

/// The moments at the readings, given what a time zone finds for them.
pub fn targets_found(readings: Readings, found: Found) -> (r: Targets)
    ensures
        r.before == moment_at(readings.before, found.before),
        r.today == moment_at(readings.today, found.today),
        r.after == moment_at(readings.after, found.after),
{
    Targets {
        before: found_moment(readings.before, found.before),
        today: found_moment(readings.today, found.today),
        after: found_moment(readings.after, found.after),
    }
}

/// What the machine's time zone finds for a reading.
fn found_for(reading: Option<i64>) -> (r: Option<(i64, bool)>)
    ensures
        match reading {
            Some(w) => r matches Some(p) ==> clock::may_show(p.0 as int, w as int),
            None => r is None,
        },
{
    match reading {
        Some(w) => clock::local_instant(w),
        None => None,
    }
}

/// An account's moments on a day, the day before and the day after, by the
/// machine's time zone: those of `targets_found` at the account's readings, for
/// what the zone finds.
pub fn targets_around(today: &str, acc: &Json, win: (u32, u32)) -> (r: Targets)
    requires
        win.0 < win.1,
    ensures
        may_be_target(today@, acc@, win, json::opt_int(r.today)),
        match shifted(today@, -1) {
            Some(d) => may_be_target(d, acc@, win, json::opt_int(r.before)),
            None => r.before is None,
        },
        match shifted(today@, 1) {
            Some(d) => may_be_target(d, acc@, win, json::opt_int(r.after)),
            None => r.after is None,
        },
{
    let readings: Readings = readings_around(today, acc, win);
    let found: Found = Found {
        before: found_for(readings.before),
        today: found_for(readings.today),
        after: found_for(readings.after),
    };
    targets_found(readings, found)
}

/// The last moment that has come: today's, else yesterday's.
pub open spec fn latest(now: int, t: Targets) -> Option<int> {
    match t.today {
        Some(x) => if now >= x {
            Some(x as int)
        } else {
            json::opt_int(t.before)
        },
        None => None,
    }
}

/// The last moment that has come.
pub fn latest_target_ms(now: i64, t: Targets) -> (r: Option<i64>)
    ensures
        json::opt_int(r) == latest(now as int, t),
{
    match t.today {
        Some(x) => {
            if now >= x {
                Some(x)
            } else {
                t.before
            }
        },
        None => None,
    }
}

/// The next moment: today's, else tomorrow's.
pub open spec fn upcoming(now: int, t: Targets) -> Option<int> {
    match t.today {
        Some(x) => if now < x {
            Some(x as int)
        } else {
            json::opt_int(t.after)
        },
        None => None,
    }
}

/// The next moment.
pub fn next_target_ms(now: i64, t: Targets) -> (r: Option<i64>)
    ensures
        json::opt_int(r) == upcoming(now as int, t),
{
    match t.today {
        Some(x) => {
            if now < x {
                Some(x)
            } else {
                t.after
            }
        },
        None => None,
    }
}

/// The text is that.
pub open spec fn text_is(o: Option<Seq<char>>, t: Seq<char>) -> bool {
    o == Some(t)
}

/// Whether a log entry answers an account's moment: it is of that moment or
/// later, went well, and is the account's. An account without an identifier is
/// known by its name in entries without one.
pub open spec fn answers(entry: JsonV, acc: JsonV, since: int) -> bool {
    &&& entry.get_i64("ts"@) is Some && entry.get_i64("ts"@)->0 >= since
    &&& text_is(entry.get_str("result"@), "success"@) || text_is(entry.get_str("result"@), "already"@)
    &&& match acc.get_str("id"@) {
        Some(id) => if id.len() > 0 {
            text_is(entry.get_str("accountId"@), id)
        } else {
            answers_by_name(entry, acc)
        },
        None => answers_by_name(entry, acc),
    }
}

/// Whether a log entry without an identifier bears the account's name.
pub open spec fn answers_by_name(entry: JsonV, acc: JsonV) -> bool {
    account::or_empty(entry.get_str("accountId"@)).len() == 0 && text_is(
        entry.get_str("email"@),
        account::display_name(acc),
    )
}

fn is_text(o: Option<&str>, t: &str) -> (b: bool)
    ensures
        b == text_is(json::opt_text(o), t@),
{
    match o {
        Some(s) => same(s, t),
        None => false,
    }
}

fn named_in(entry: &Json, acc: &Json) -> (b: bool)
    ensures
        b == answers_by_name(entry@, acc@),
{
    let blank: bool = match entry.get_str("accountId") {
        Some(id) => id.is_empty(),
        None => true,
    };
    let name: String = account::account_display_name(acc);
    blank && is_text(entry.get_str("email"), name.as_str())
}

fn entry_answers(entry: &Json, acc: &Json, since: i64) -> (b: bool)
    ensures
        b == answers(entry@, acc@, since as int),
{
    let late: bool = match entry.get_i64("ts") {
        Some(ts) => ts >= since,
        None => false,
    };
    if !late {
        return false;
    }
    let result: Option<&str> = entry.get_str("result");
    if !is_text(result, "success") && !is_text(result, "already") {
        return false;
    }
    match acc.get_str("id") {
        Some(id) => {
            if id.is_empty() {
                named_in(entry, acc)
            } else {
                is_text(entry.get_str("accountId"), id)
            }
        },
        None => named_in(entry, acc),
    }
}

/// Whether the log answers an account's moment.
pub open spec fn answered(logs: Seq<JsonV>, acc: JsonV, since: int) -> bool {
    exists|i: int| 0 <= i < logs.len() && answers(#[trigger] logs[i], acc, since)
}

/// Whether the log answers an account's moment.
pub fn logs_answered_window(logs: &[Json], acc: &Json, since: i64) -> (b: bool)
    ensures
        b == answered(json::list_view(logs@), acc@, since as int),
{
    let ghost all = json::list_view(logs@);
    let mut i: usize = 0;
    while i < logs.len()
        invariant
            i <= logs@.len(),
            all == json::list_view(logs@),
            forall|j: int| 0 <= j < i ==> !answers(#[trigger] all[j], acc@, since as int),
        decreases logs@.len() - i,
    {
        assert(all[i as int] == logs@[i as int]@);
        if entry_answers(&logs[i], acc, since) {
            return true;
        }
        i += 1;
    }
    false
}

/// Whether an account is due: its last moment has no answer. One whose moments
/// cannot be told is due.
pub open spec fn due(now: int, acc: JsonV, t: Targets, logs: Seq<JsonV>) -> bool {
    match latest(now, t) {
        Some(since) => !answered(logs, acc, since),
        None => true,
    }
}

/// Whether an account is due.
pub fn account_due(now: i64, acc: &Json, t: Targets, logs: &[Json]) -> (b: bool)
    ensures
        b == due(now as int, acc@, t, json::list_view(logs@)),
{
    match latest_target_ms(now, t) {
        Some(since) => !logs_answered_window(logs, acc, since),
        None => true,
    }
}

/// No moments.
pub open spec fn no_targets() -> Targets {
    Targets { before: None, today: None, after: None }
}

/// The moments at place `i`.
pub open spec fn targets_at(targets: Seq<Targets>, i: int) -> Targets {
    if 0 <= i < targets.len() {
        targets[i]
    } else {
        no_targets()
    }
}

fn target_of(targets: &[Targets], i: usize) -> (t: Targets)
    ensures
        t == targets_at(targets@, i as int),
{
    if i < targets.len() {
        targets[i]
    } else {
        Targets { before: None, today: None, after: None }
    }
}

/// The first `n` accounts that are due.
pub open spec fn due_in(
    accounts: Seq<JsonV>,
    now: int,
    targets: Seq<Targets>,
    logs: Seq<JsonV>,
    n: int,
) -> Seq<JsonV>
    decreases n,
{
    if n <= 0 || n > accounts.len() {
        Seq::empty()
    } else {
        let rest = due_in(accounts, now, targets, logs, n - 1);
        if due(now, accounts[n - 1], targets_at(targets, n - 1), logs) {
            rest.push(accounts[n - 1])
        } else {
            rest
        }
    }
}

/// The accounts that are due, by the moments of each; all where there is no window.
pub fn due_accounts(accounts: &[Json], now: i64, windowed: bool, targets: &[Targets], logs: &[Json]) -> (r: Vec<Json>)
    ensures
        json::list_view(r@) == (if windowed {
            due_in(
                json::list_view(accounts@),
                now as int,
                targets@,
                json::list_view(logs@),
                accounts@.len() as int,
            )
        } else {
            json::list_view(accounts@)
        }),
{
    if !windowed {
        return json::clone_slice(accounts);
    }
    let ghost all = json::list_view(accounts@);
    let ghost log = json::list_view(logs@);
    let mut out: Vec<Json> = Vec::new();
    let mut i: usize = 0;
    assert(json::list_view(out@) =~= due_in(all, now as int, targets@, log, 0));
    while i < accounts.len()
        invariant
            i <= accounts@.len(),
            all == json::list_view(accounts@),
            log == json::list_view(logs@),
            json::list_view(out@) == due_in(all, now as int, targets@, log, i as int),
        decreases accounts@.len() - i,
    {
        assert(all[i as int] == accounts@[i as int]@);
        if account_due(now, &accounts[i], target_of(targets, i), logs) {
            let ghost held = out@;
            out.push(accounts[i].clone());
            assert(json::list_view(out@) =~= json::list_view(held).push(all[i as int]));
        }
        i += 1;
    }
    out
}

/// An account whose moment has come and was answered is not due again before its
/// next moment, whatever is logged besides.
pub proof fn answered_stays_answered(
    now: int,
    later: int,
    acc: JsonV,
    t: Targets,
    logs: Seq<JsonV>,
    more: Seq<JsonV>,
)
    requires
        latest(now, t) == latest(later, t),
        !due(now, acc, t, logs),
    ensures
        !due(later, acc, t, logs + more),
{
    let since = latest(now, t)->0;
    let i = choose|i: int| 0 <= i < logs.len() && answers(#[trigger] logs[i], acc, since);
    assert((logs + more)[i] == logs[i]);
}

/// How the last round went, and how often it may be tried again quickly.
#[derive(Debug, Clone, Copy, PartialEq, Eq, Structural)]
pub struct CycleHealth {
    pub had_errors: bool,
    pub budget: u32,
}

impl Default for CycleHealth {
    fn default() -> (r: Self)
        ensures
            r.had_errors == false && r.budget == FAST_RETRY_MAX,
    {
        CycleHealth { had_errors: false, budget: FAST_RETRY_MAX }
    }
}

/// Notes how a round went: a clean one restores the quick tries.
pub fn record_cycle_health(health: &mut CycleHealth, had_errors: bool)
    ensures
        final(health).had_errors == had_errors,
        final(health).budget == (if had_errors {
            old(health).budget
        } else {
            FAST_RETRY_MAX
        }),
{
    health.had_errors = had_errors;
    if !had_errors {
        health.budget = FAST_RETRY_MAX;
    }
}

/// The nearest next moment of the first `n` accounts.
pub open spec fn nearest(now: int, targets: Seq<Targets>, n: int) -> Option<int>
    decreases n,
{
    if n <= 0 || n > targets.len() {
        None
    } else {
        let rest = nearest(now, targets, n - 1);
        match upcoming(now, targets[n - 1]) {
            Some(t) => if rest is None || t < rest->0 {
                Some(t)
            } else {
                rest
            },
            None => rest,
        }
    }
}

fn nearest_target(now: i64, targets: &[Targets]) -> (r: Option<i64>)
    ensures
        json::opt_int(r) == nearest(now as int, targets@, targets@.len() as int),
{
    let mut best: Option<i64> = None;
    let mut i: usize = 0;
    while i < targets.len()
        invariant
            i <= targets@.len(),
            json::opt_int(best) == nearest(now as int, targets@, i as int),
        decreases targets@.len() - i,
    {
        match next_target_ms(now, targets[i]) {
            Some(t) => {
                let nearer: bool = match best {
                    Some(b) => t < b,
                    None => true,
                };
                if nearer {
                    best = Some(t);
                }
            },
            None => {},
        }
        i += 1;
    }
    best
}

/// The time until a moment, not less than the least and not more than the usual
/// time between two rounds.
pub open spec fn wait_until(target: Option<int>, now: int) -> int {
    match target {
        Some(t) => {
            let left = (t as i64).wrapping_sub(now as i64);
            if left < MIN_CYCLE_DELAY {
                MIN_CYCLE_DELAY as int
            } else if left > CHECKIN_RECOVERY_INTERVAL {
                CHECKIN_RECOVERY_INTERVAL as int
            } else {
                left as int
            }
        },
        None => CHECKIN_RECOVERY_INTERVAL as int,
    }
}

/// The time until the next round, and the quick tries that are left. Without a
/// window it is the usual one; after errors it is a quick try, while there are
/// any; else it is the time until the nearest moment.
pub open spec fn next_delay(
    had_errors: bool,
    budget: int,
    now: int,
    targets: Seq<Targets>,
    windowed: bool,
) -> (int, int) {
    if !windowed {
        (CHECKIN_RECOVERY_INTERVAL as int, budget)
    } else if had_errors && budget > 0 {
        (FAST_RETRY_INTERVAL as int, budget - 1)
    } else {
        (wait_until(nearest(now, targets, targets.len() as int), now), budget)
    }
}

/// The time until the next round, and the quick tries that are left.
pub fn plan_next_delay(had_errors: bool, budget: u32, now: i64, targets: &[Targets], windowed: bool) -> (r: (u64, u32))
    ensures
        (r.0 as int, r.1 as int) == next_delay(had_errors, budget as int, now as int, targets@, windowed),
{
    if !windowed {
        return (CHECKIN_RECOVERY_INTERVAL, budget);
    }
    if had_errors && budget > 0 {
        return (FAST_RETRY_INTERVAL, budget - 1);
    }
    let delay: u64 = match nearest_target(now, targets) {
        Some(t) => {
            let left: i64 = t.wrapping_sub(now);
            if left < 60_000 {
                MIN_CYCLE_DELAY
            } else if left > 1_800_000 {
                CHECKIN_RECOVERY_INTERVAL
            } else {
                left as u64
            }
        },
        None => CHECKIN_RECOVERY_INTERVAL,
    };
    (delay, budget)
}

/// The time until the next round, which may use up a quick try.
pub fn next_cycle_delay(health: &mut CycleHealth, now: i64, targets: &[Targets], windowed: bool) -> (delay: u64)
    ensures
        (delay as int, final(health).budget as int) == next_delay(
            old(health).had_errors,
            old(health).budget as int,
            now as int,
            targets@,
            windowed,
        ),
        final(health).had_errors == old(health).had_errors,
{
    let (delay, left): (u64, u32) = plan_next_delay(health.had_errors, health.budget, now, targets, windowed);
    health.budget = left;
    delay
}

/// The time until the next round lies between the least and the usual time, and
/// no plan adds quick tries.
pub proof fn delays_are_bounded(had_errors: bool, budget: int, now: int, targets: Seq<Targets>, windowed: bool)
    requires
        0 <= budget,
    ensures
        ({
            let (delay, left) = next_delay(had_errors, budget, now, targets, windowed);
            &&& MIN_CYCLE_DELAY <= delay <= CHECKIN_RECOVERY_INTERVAL
            &&& 0 <= left <= budget
        }),
{
}

/// The log entry that answers an account's moment where the service says that it
/// has checked in already; none where the log answers it.
pub open spec fn receipt(acc: JsonV, logs: Seq<JsonV>, t: Targets, now: int) -> Option<JsonV> {
    match latest(now, t) {
        Some(since) => if answered(logs, acc, since) {
            None
        } else {
            Some(
                JsonV::empty().put("ts"@, JsonV::Int(now)).put("accountId"@, json::value_or_null(acc.get("id"@))).put(
                    "email"@,
                    JsonV::Str(account::display_name(acc)),
                ).put("variant"@, JsonV::Str(variant::variant_in(acc).name())).put(
                    "result"@,
                    JsonV::Str("already"@),
                ),
            )
        },
        None => None,
    }
}

/// The log entry that answers an account's moment where the service says that it
/// has checked in already; none where the log answers it.
pub fn write_window_receipt(acc: &Json, logs: &[Json], t: Targets, now: i64) -> (r: Option<Json>)
    ensures
        account::opt_json(r) == receipt(acc@, json::list_view(logs@), t, now as int),
{
    match latest_target_ms(now, t) {
        Some(since) => {
            if logs_answered_window(logs, acc, since) {
                return None;
            }
            let name: String = account::account_display_name(acc);
            Some(
                Json::object().put("ts", Json::num(now)).put("accountId", Json::or_null(acc.get("id"))).put(
                    "email",
                    Json::text(name.as_str()),
                ).put("variant", Json::text(account::variant_of(acc).as_str())).put("result", Json::text("already")),
            )
        },
        None => None,
    }
}

/// What a result row tells of an account's check-in, besides whose it is.
pub open spec fn row_of(front: JsonV, acc: JsonV, result: JsonV) -> JsonV {
    let row = front.put("email"@, JsonV::Str(account::display_name(acc))).put(
        "result"@,
        json::value_or_null(result.get("result"@)),
    ).put("error"@, json::value_or_null(result.get("error"@)));
    if result.get_bool("inactive"@) == Some(true) {
        row.put("inactive"@, JsonV::Bool(true))
    } else {
        row
    }
}

fn result_row(front: Json, acc: &Json, result: &Json) -> (r: Json)
    requires
        front@ is Obj,
    ensures
        r@ == row_of(front@, acc@, result@),
{
    let name: String = account::account_display_name(acc);
    let row: Json = front.put("email", Json::text(name.as_str())).put(
        "result",
        Json::or_null(result.get("result")),
    ).put("error", Json::or_null(result.get("error")));
    if is_true(result, "inactive") {
        row.put("inactive", Json::Bool(true))
    } else {
        row
    }
}

/// What a round tells of an account.
pub fn cycle_row(acc: &Json, result: &Json) -> (r: Json)
    ensures
        r@ == row_of(JsonV::empty(), acc@, result@),
{
    result_row(Json::object(), acc, result)
}

/// What a check-in of all accounts tells of one.
pub fn checkin_all_row(acc: &Json, result: &Json) -> (r: Json)
    ensures
        r@ == all_row(acc@, result@),
{
    let front: Json = Json::object().put("accountId", Json::or_null(acc.get("id")));
    let row: Json = result_row(front, acc, result);
    match result.get("reason") {
        Some(x) => row.put("reason", x.clone()),
        None => row,
    }
}

/// How a round begins.
pub enum CycleStart {
    /// It ends at once; where it is over, it was clean.
    Answer { answer: Json, clean: bool },
    /// These accounts check in.
    Run(Vec<Json>),
}

/// How a round begins.
pub enum CycleStartV {
    Answer { answer: JsonV, clean: bool },
    Run(Seq<JsonV>),
}

impl CycleStart {
    pub open spec fn view(&self) -> CycleStartV {
        match self {
            CycleStart::Answer { answer, clean } => CycleStartV::Answer { answer: answer@, clean: *clean },
            CycleStart::Run(v) => CycleStartV::Run(json::list_view(v@)),
        }
    }
}

/// How a round begins, by the accounts that check in by themselves and the
/// moments of each.
pub open spec fn cycle_start(
    cfg: JsonV,
    accounts: Seq<JsonV>,
    now: int,
    windowed: bool,
    targets: Seq<Targets>,
    logs: Seq<JsonV>,
) -> CycleStartV {
    if cfg.get_bool("enabled"@) != Some(true) {
        CycleStartV::Answer { answer: JsonV::empty().put("status"@, JsonV::Str("disabled"@)), clean: false }
    } else if accounts.len() == 0 {
        CycleStartV::Answer { answer: JsonV::empty().put("status"@, JsonV::Str("no_accounts"@)), clean: false }
    } else {
        let run = if windowed {
            due_in(accounts, now, targets, logs, accounts.len() as int)
        } else {
            accounts
        };
        if run.len() == 0 {
            CycleStartV::Answer {
                answer: JsonV::empty().put("status"@, JsonV::Str("skipped"@)).put(
                    "reason"@,
                    JsonV::Str("before_checkin_time"@),
                ).put("accounts"@, JsonV::Arr(Seq::empty())),
                clean: true,
            }
        } else {
            CycleStartV::Run(run)
        }
    }
}

/// Begins a round: it is off, or has no accounts, or none of them is due, or
/// those that are due check in. Why it is run makes no difference.
pub fn run_checkin_cycle(
    _mode: CheckinCycleMode,
    cfg: &Json,
    accounts: &[Json],
    now: i64,
    windowed: bool,
    targets: &[Targets],
    logs: &[Json],
) -> (r: CycleStart)
    ensures
        r@ == cycle_start(
            cfg@,
            json::list_view(accounts@),
            now as int,
            windowed,
            targets@,
            json::list_view(logs@),
        ),
{
    if !is_true(cfg, "enabled") {
        return CycleStart::Answer {
            answer: Json::object().put("status", Json::text("disabled")),
            clean: false,
        };
    }
    assert(json::list_view(accounts@).len() == accounts@.len());
    if accounts.len() == 0 {
        return CycleStart::Answer {
            answer: Json::object().put("status", Json::text("no_accounts")),
            clean: false,
        };
    }
    let run: Vec<Json> = due_accounts(accounts, now, windowed, targets, logs);
    assert(json::list_view(run@).len() == run@.len());
    if run.len() == 0 {
        let none: Vec<Json> = Vec::new();
        assert(json::list_view(none@) =~= Seq::<JsonV>::empty());
        return CycleStart::Answer {
            answer: Json::object().put("status", Json::text("skipped")).put(
                "reason",
                Json::text("before_checkin_time"),
            ).put("accounts", Json::Arr(none)),
            clean: true,
        };
    }
    CycleStart::Run(run)
}

/// Whether a result is an error.
pub fn is_error_result(result: &Json) -> (b: bool)
    ensures
        b == text_is(result@.get_str("result"@), "error"@),
{
    is_text(result.get_str("result"), "error")
}

/// Whether a result is that the account had checked in already.
pub fn is_already_result(result: &Json) -> (b: bool)
    ensures
        b == text_is(result@.get_str("result"@), "already"@),
{
    is_text(result.get_str("result"), "already")
}

/// What a round tells.
pub fn cycle_summary(rows: Vec<Json>) -> (r: Json)
    ensures
        r@ == JsonV::empty().put("status"@, JsonV::Str("ok"@)).put(
            "accounts"@,
            JsonV::Arr(json::list_view(rows@)),
        ),
{
    Json::object().put("status", Json::text("ok")).put("accounts", Json::Arr(rows))
}

/// How many accounts have a result.
pub open spec fn both(accounts: Seq<JsonV>, results: Seq<JsonV>) -> int {
    if accounts.len() < results.len() {
        accounts.len() as int
    } else {
        results.len() as int
    }
}

/// What a round tells of each of its accounts.
pub open spec fn cycle_rows(accounts: Seq<JsonV>, results: Seq<JsonV>) -> Seq<JsonV> {
    Seq::new(both(accounts, results) as nat, |i: int| row_of(JsonV::empty(), accounts[i], results[i]))
}

/// One of the results of a round is an error.
pub open spec fn went_wrong(accounts: Seq<JsonV>, results: Seq<JsonV>) -> bool {
    exists|i: int|
        0 <= i < both(accounts, results) && text_is((#[trigger] results[i]).get_str("result"@), "error"@)
}

/// Ends a round: what it tells of its accounts, and how it went is noted.
pub fn finish_cycle(health: &mut CycleHealth, accounts: &[Json], results: &[Json]) -> (r: Json)
    ensures
        r@ == JsonV::empty().put("status"@, JsonV::Str("ok"@)).put(
            "accounts"@,
            JsonV::Arr(cycle_rows(json::list_view(accounts@), json::list_view(results@))),
        ),
        final(health).had_errors == went_wrong(json::list_view(accounts@), json::list_view(results@)),
        final(health).budget == (if final(health).had_errors {
            old(health).budget
        } else {
            FAST_RETRY_MAX
        }),
{
    let ghost all = json::list_view(accounts@);
    let ghost outcomes = json::list_view(results@);
    let mut rows: Vec<Json> = Vec::new();
    let mut wrong: bool = false;
    let mut i: usize = 0;
    while i < accounts.len() && i < results.len()
        invariant
            i <= both(all, outcomes),
            all == json::list_view(accounts@),
            outcomes == json::list_view(results@),
            rows@.len() == i,
            forall|j: int| 0 <= j < i ==> (#[trigger] rows@[j])@ == row_of(JsonV::empty(), all[j], outcomes[j]),
            wrong == exists|j: int|
                0 <= j < i && text_is((#[trigger] outcomes[j]).get_str("result"@), "error"@),
        decreases accounts@.len() - i,
    {
        assert(all[i as int] == accounts@[i as int]@);
        assert(outcomes[i as int] == results@[i as int]@);
        rows.push(cycle_row(&accounts[i], &results[i]));
        if is_error_result(&results[i]) {
            wrong = true;
        }
        i += 1;
    }
    assert(json::list_view(rows@) =~= cycle_rows(all, outcomes));
    record_cycle_health(health, wrong);
    cycle_summary(rows)
}

/// What a check-in of all accounts tells of one.
pub open spec fn all_row(acc: JsonV, result: JsonV) -> JsonV {
    let row = row_of(JsonV::empty().put("accountId"@, json::value_or_null(acc.get("id"@))), acc, result);
    match result.get("reason"@) {
        Some(x) => row.put("reason"@, x),
        None => row,
    }
}

/// What a check-in of all accounts tells, by the result of each.
pub fn checkin_all_rows(accounts: &[Json], results: &[Json]) -> (r: Json)
    ensures
        r@ == JsonV::empty().put(
            "accounts"@,
            JsonV::Arr(
                Seq::new(
                    both(json::list_view(accounts@), json::list_view(results@)) as nat,
                    |i: int| all_row(json::list_view(accounts@)[i], json::list_view(results@)[i]),
                ),
            ),
        ),
{
    let ghost all = json::list_view(accounts@);
    let ghost outcomes = json::list_view(results@);
    let mut rows: Vec<Json> = Vec::new();
    let mut i: usize = 0;
    while i < accounts.len() && i < results.len()
        invariant
            i <= both(all, outcomes),
            all == json::list_view(accounts@),
            outcomes == json::list_view(results@),
            rows@.len() == i,
            forall|j: int| 0 <= j < i ==> (#[trigger] rows@[j])@ == all_row(all[j], outcomes[j]),
        decreases accounts@.len() - i,
    {
        assert(all[i as int] == accounts@[i as int]@);
        assert(outcomes[i as int] == results@[i as int]@);
        rows.push(checkin_all_row(&accounts[i], &results[i]));
        i += 1;
    }
    assert(json::list_view(rows@) =~= Seq::new(both(all, outcomes) as nat, |k: int| all_row(all[k], outcomes[k])));
    Json::object().put("accounts", Json::Arr(rows))
}

/// What is told where a round is running.
pub fn busy_answer(all: bool) -> (r: Json)
    ensures
        r@ == ({
            let front = if all {
                JsonV::empty().put("accounts"@, JsonV::Arr(Seq::empty()))
            } else {
                JsonV::empty()
            };
            front.put("status"@, JsonV::Str("skipped"@)).put("reason"@, JsonV::Str("already_running"@))
        }),
{
    let front: Json = if all {
        let none: Vec<Json> = Vec::new();
        assert(json::list_view(none@) =~= Seq::<JsonV>::empty());
        Json::object().put("accounts", Json::Arr(none))
    } else {
        Json::object()
    };
    front.put("status", Json::text("skipped")).put("reason", Json::text("already_running"))
}

/// The accounts that a check-in of all is for: those of the domestic edition, and
/// of the edition asked for.
pub open spec fn all_for(accounts: Seq<JsonV>, v: Option<WbVariant>) -> Seq<JsonV>
    decreases accounts.len(),
{
    if accounts.len() == 0 {
        Seq::empty()
    } else {
        let rest = all_for(accounts.subrange(0, accounts.len() - 1), v);
        let a = accounts[accounts.len() - 1];
        let own = variant::variant_in(a);
        if own == WbVariant::Cn && (v is None || own == v->0) {
            rest.push(a)
        } else {
            rest
        }
    }
}

/// The accounts that a check-in of all is for.
pub fn run_checkin_all(accounts: &[Json], v: Option<WbVariant>) -> (r: Vec<Json>)
    ensures
        json::list_view(r@) == all_for(json::list_view(accounts@), v),
{
    let ghost all = json::list_view(accounts@);
    let mut out: Vec<Json> = Vec::new();
    let mut i: usize = 0;
    assert(json::list_view(out@) =~= all_for(all.subrange(0, 0), v));
    while i < accounts.len()
        invariant
            i <= accounts@.len(),
            all == json::list_view(accounts@),
            json::list_view(out@) == all_for(all.subrange(0, i as int), v),
        decreases accounts@.len() - i,
    {
        assert(all.subrange(0, i + 1).subrange(0, i as int) =~= all.subrange(0, i as int));
        assert(all[i as int] == accounts@[i as int]@);
        let own: WbVariant = account::variant_of(&accounts[i]);
        let wanted: bool = match v {
            Some(x) => own == x,
            None => true,
        };
        if own.supports_checkin() && wanted {
            let ghost held = out@;
            out.push(accounts[i].clone());
            assert(json::list_view(out@) =~= json::list_view(held).push(all[i as int]));
        }
        i += 1;
    }
    assert(all.subrange(0, all.len() as int) =~= all);
    out
}

/// The whole second that a time lies in, cut toward zero, in milliseconds.
pub open spec fn cut_to_second(ms: int) -> int {
    if ms >= 0 {
        ms / 1000 * 1000
    } else {
        -((-ms) / 1000 * 1000)
    }
}

/// The whole second that a time lies in, cut toward zero, in milliseconds.
pub fn second_of(ms: i64) -> (r: i64)
    ensures
        r == cut_to_second(ms as int),
{
    if ms >= 0 {
        ms / 1000 * 1000
    } else if ms == i64::MIN {
        -9_223_372_036_854_775_000
    } else {
        -((-ms) / 1000 * 1000)
    }
}

/// The date of a time, in writing; this day's where there is no time or it lies
/// outside the calendar.
pub open spec fn date_of(ts: Option<int>, days: Map<int, i32>, this_day: i32) -> Seq<char> {
    clock::text_of_day(
        match ts {
            Some(t) => match clock::day_at(days, cut_to_second(t)) {
                Some(d) => d,
                None => this_day,
            },
            None => this_day,
        },
    )
}

/// The date of a time, in writing, by the local days looked up; this day's where
/// there is none.
pub fn date_str(ts_ms: Option<i64>, days: &LocalDays, this_day: i32) -> (r: String)
    requires
        clock::days_valid(days@),
        clock::FIRST_DAY <= this_day <= clock::LAST_DAY,
    ensures
        r@ == date_of(json::opt_int(ts_ms), days@, this_day),
{
    match ts_ms {
        Some(t) => match days.get(second_of(t)) {
            Some(d) => clock::day_text(d),
            None => clock::day_text(this_day),
        },
        None => clock::day_text(this_day),
    }
}

/// The days are those of the seconds in which a log's entries were made, in some
/// time zone.
pub open spec fn days_of_entries(logs: Seq<JsonV>, days: Map<int, i32>) -> bool {
    &&& clock::days_looked_up(days)
    &&& forall|i: int|
        0 <= i < logs.len() ==> ((#[trigger] logs[i]).get_i64("ts"@) matches Some(t) ==> (clock::has_day(
            cut_to_second(t),
        ) ==> days.contains_key(cut_to_second(t))))
}

/// The local days of the times in a log.
pub fn log_days(logs: &[Json]) -> (days: LocalDays)
    ensures
        clock::days_valid(days@),
        days_of_entries(json::list_view(logs@), days@),
{
    let ghost all = json::list_view(logs@);
    let mut days: LocalDays = LocalDays::new();
    let mut i: usize = 0;
    while i < logs.len()
        invariant
            i <= logs@.len(),
            all == json::list_view(logs@),
            clock::days_looked_up(days@),
            forall|k: int|
                0 <= k < i ==> ((#[trigger] all[k]).get_i64("ts"@) matches Some(t) ==> (clock::has_day(
                    cut_to_second(t),
                ) ==> days@.contains_key(cut_to_second(t)))),
        decreases logs@.len() - i,
    {
        assert(all[i as int] == logs@[i as int]@);
        match logs[i].get_i64("ts") {
            Some(t) => {
                let ghost before = days@;
                let second: i64 = second_of(t);
                days.look_up(second);
                proof {
                    clock::others_stay(before, days@, second as int);
                }
            },
            None => {},
        }
        i += 1;
    }
    days
}

/// The result of the account's last log entry of the day, among the first `n`.
pub open spec fn last_result(
    logs: Seq<JsonV>,
    id: Seq<char>,
    today: Seq<char>,
    days: Map<int, i32>,
    this_day: i32,
    n: int,
) -> Option<Seq<char>>
    decreases n,
{
    if n <= 0 || n > logs.len() {
        None
    } else {
        let e = logs[n - 1];
        if text_is(e.get_str("accountId"@), id) && date_of(e.get_i64("ts"@), days, this_day) == today {
            e.get_str("result"@)
        } else {
            last_result(logs, id, today, days, this_day, n - 1)
        }
    }
}

fn latest_today_result<'a>(logs: &'a [Json], id: &str, today: &str, days: &LocalDays, this_day: i32) -> (r: Option<
    &'a str,
>)
    requires
        clock::days_valid(days@),
        clock::FIRST_DAY <= this_day <= clock::LAST_DAY,
    ensures
        json::opt_text(r) == last_result(
            json::list_view(logs@),
            id@,
            today@,
            days@,
            this_day,
            logs@.len() as int,
        ),
{
    let ghost all = json::list_view(logs@);
    let ghost goal = last_result(all, id@, today@, days@, this_day, logs@.len() as int);
    let mut i: usize = logs.len();
    while i > 0
        invariant
            i <= logs@.len(),
            all == json::list_view(logs@),
            clock::days_valid(days@),
            clock::FIRST_DAY <= this_day <= clock::LAST_DAY,
            goal == last_result(all, id@, today@, days@, this_day, logs@.len() as int),
            goal == last_result(all, id@, today@, days@, this_day, i as int),
        decreases i,
    {
        let e: &Json = &logs[i - 1];
        assert(all[i - 1] == e@);
        if is_text(e.get_str("accountId"), id) {
            let date: String = date_str(e.get_i64("ts"), days, this_day);
            if same(date.as_str(), today) {
                return e.get_str("result");
            }
        }
        i -= 1;
    }
    None
}

/// Whether an account's last log entry of the day went well.
pub open spec fn done_today(
    acc: JsonV,
    logs: Seq<JsonV>,
    today: Seq<char>,
    days: Map<int, i32>,
    this_day: i32,
) -> bool {
    match acc.get_str("id"@) {
        Some(id) => {
            let r = last_result(logs, id, today, days, this_day, logs.len() as int);
            text_is(r, "success"@) || text_is(r, "already"@)
        },
        None => false,
    }
}

/// Whether all accounts that check in by themselves have done so on the day.
/// Where no account is stored they have not.
pub open spec fn all_done(
    accounts: Seq<JsonV>,
    logs: Seq<JsonV>,
    today: Seq<char>,
    cfg: JsonV,
    days: Map<int, i32>,
    this_day: i32,
) -> bool {
    accounts.len() > 0 && forall|i: int|
        0 <= i < accounts.len() && allowed(#[trigger] accounts[i], cfg) ==> done_today(
            accounts[i],
            logs,
            today,
            days,
            this_day,
        )
}

/// Whether all accounts that check in by themselves have done so on the day.
pub fn accounts_checked_in_today(
    accounts: &[Json],
    logs: &[Json],
    today: &str,
    cfg: &Json,
    days: &LocalDays,
    this_day: i32,
) -> (b: bool)
    requires
        clock::days_valid(days@),
        clock::FIRST_DAY <= this_day <= clock::LAST_DAY,
    ensures
        b == all_done(
            json::list_view(accounts@),
            json::list_view(logs@),
            today@,
            cfg@,
            days@,
            this_day,
        ),
{
    let ghost all = json::list_view(accounts@);
    let ghost log = json::list_view(logs@);
    assert(all.len() == accounts@.len());
    if accounts.len() == 0 {
        return false;
    }
    let mut i: usize = 0;
    while i < accounts.len()
        invariant
            i <= accounts@.len(),
            all == json::list_view(accounts@),
            log == json::list_view(logs@),
            clock::days_valid(days@),
            clock::FIRST_DAY <= this_day <= clock::LAST_DAY,
            forall|j: int|
                0 <= j < i && allowed(#[trigger] all[j], cfg@) ==> done_today(all[j], log, today@, days@, this_day),
        decreases accounts@.len() - i,
    {
        assert(all[i as int] == accounts@[i as int]@);
        if allows_auto_checkin(&accounts[i], cfg) {
            let done: bool = match accounts[i].get_str("id") {
                Some(id) => {
                    let r: Option<&str> = latest_today_result(logs, id, today, days, this_day);
                    is_text(r, "success") || is_text(r, "already")
                },
                None => false,
            };
            if !done {
                assert(allowed(all[i as int], cfg@) && !done_today(all[i as int], log, today@, days@, this_day));
                return false;
            }
        }
        i += 1;
    }
    true
}

fn nobody_checks_in(accounts: &[Json], cfg: &Json) -> (b: bool)
    ensures
        b == forall|i: int| 0 <= i < accounts@.len() ==> !allowed(#[trigger] json::list_view(accounts@)[i], cfg@),
{
    let ghost all = json::list_view(accounts@);
    let mut i: usize = 0;
    while i < accounts.len()
        invariant
            i <= accounts@.len(),
            all == json::list_view(accounts@),
            forall|j: int| 0 <= j < i ==> !allowed(#[trigger] all[j], cfg@),
        decreases accounts@.len() - i,
    {
        assert(all[i as int] == accounts@[i as int]@);
        if allows_auto_checkin(&accounts[i], cfg) {
            assert(allowed(json::list_view(accounts@)[i as int], cfg@));
            return false;
        }
        i += 1;
    }
    true
}

/// Whether all accounts that check in by themselves have done so on the local day
/// of a time; where that has no local day, whether none does.
pub fn all_accounts_checked_in_today(accounts: &[Json], logs: &[Json], cfg: &Json, now: i64) -> (b: bool)
    ensures
        ({
            ||| clock::in_calendar(now as int) && exists|days: Map<int, i32>, day: i32|
                #![trigger days_of_entries(json::list_view(logs@), days), clock::may_be_day(now as int, day)]
                days_of_entries(json::list_view(logs@), days) && clock::may_be_day(now as int, day) && b == all_done(
                    json::list_view(accounts@),
                    json::list_view(logs@),
                    clock::text_of_day(day),
                    cfg@,
                    days,
                    day,
                )
            ||| !clock::has_day(now as int) && b == (accounts@.len() > 0 && forall|i: int|
                0 <= i < accounts@.len() ==> !allowed(#[trigger] json::list_view(accounts@)[i], cfg@))
        }),
{
    match clock::local_day(now) {
        Some(day) => {
            let days: LocalDays = log_days(logs);
            let today: String = clock::day_text(day);
            assert(days_of_entries(json::list_view(logs@), days@) && clock::may_be_day(now as int, day));
            accounts_checked_in_today(accounts, logs, today.as_str(), cfg, &days, day)
        },
        None => accounts.len() > 0 && nobody_checks_in(accounts, cfg),
    }
}

/// The edition of the last account with an identifier, among the first `n`.
pub open spec fn known_edition(accounts: Seq<JsonV>, id: Seq<char>, n: int) -> Option<WbVariant>
    decreases n,
{
    if n <= 0 || n > accounts.len() {
        None
    } else if text_is(accounts[n - 1].get_str("id"@), id) {
        Some(variant::variant_in(accounts[n - 1]))
    } else {
        known_edition(accounts, id, n - 1)
    }
}

/// A log entry with an edition: its own, else that of its account, else the domestic one.
pub open spec fn with_edition(entry: JsonV, accounts: Seq<JsonV>) -> JsonV {
    if entry.get_str("variant"@) is Some {
        entry
    } else {
        let known = match entry.get_str("accountId"@) {
            Some(id) => known_edition(accounts, id, accounts.len() as int),
            None => None,
        };
        entry.put(
            "variant"@,
            JsonV::Str(
                match known {
                    Some(v) => v.name(),
                    None => WbVariant::Cn.name(),
                },
            ),
        )
    }
}

fn find_edition(accounts: &[Json], id: &str) -> (r: Option<WbVariant>)
    ensures
        r == known_edition(json::list_view(accounts@), id@, accounts@.len() as int),
{
    let ghost all = json::list_view(accounts@);
    let ghost goal = known_edition(all, id@, accounts@.len() as int);
    let mut i: usize = accounts.len();
    while i > 0
        invariant
            i <= accounts@.len(),
            all == json::list_view(accounts@),
            goal == known_edition(all, id@, accounts@.len() as int),
            goal == known_edition(all, id@, i as int),
        decreases i,
    {
        assert(all[i - 1] == accounts@[i - 1]@);
        if is_text(accounts[i - 1].get_str("id"), id) {
            return Some(account::variant_of(&accounts[i - 1]));
        }
        i -= 1;
    }
    None
}

/// The log with an edition for every entry.
pub fn checkin_logs_with_variant(logs: &[Json], accounts: &[Json]) -> (r: Vec<Json>)
    requires
        forall|i: int| 0 <= i < logs@.len() ==> (#[trigger] logs@[i])@ is Obj || logs@[i]@ is Null,
    ensures
        json::list_view(r@) == json::list_view(logs@).map_values(
            |e: JsonV| with_edition(e, json::list_view(accounts@)),
        ),
{
    let ghost all = json::list_view(logs@);
    let ghost known = json::list_view(accounts@);
    let mut out: Vec<Json> = Vec::new();
    let mut i: usize = 0;
    while i < logs.len()
        invariant
            i <= logs@.len(),
            forall|i: int| 0 <= i < logs@.len() ==> (#[trigger] logs@[i])@ is Obj || logs@[i]@ is Null,
            all == json::list_view(logs@),
            known == json::list_view(accounts@),
            out@.len() == i,
            forall|j: int| 0 <= j < i ==> (#[trigger] out@[j])@ == with_edition(all[j], known),
        decreases logs@.len() - i,
    {
        assert(all[i as int] == logs@[i as int]@);
        assert(logs@[i as int]@ is Obj || logs@[i as int]@ is Null);
        let e: &Json = &logs[i];
        if e.get_str("variant").is_some() {
            out.push(e.clone());
        } else {
            let edition: Option<WbVariant> = match e.get_str("accountId") {
                Some(id) => find_edition(accounts, id),
                None => None,
            };
            let v: WbVariant = match edition {
                Some(v) => v,
                None => WbVariant::Cn,
            };
            out.push(e.clone().put("variant", Json::text(v.as_str())));
        }
        i += 1;
    }
    assert(json::list_view(out@) =~= all.map_values(|e: JsonV| with_edition(e, known)));
    out
}

/// Nobody that has no check-ins is ever among those that check in: not by
/// themselves, not when due, not when all are asked to.
pub proof fn only_domestic_accounts_check_in(accounts: Seq<JsonV>, cfg: JsonV, v: Option<WbVariant>)
    ensures
        forall|i: int|
            0 <= i < allowed_in(accounts, cfg).len() ==> variant::variant_in(#[trigger] allowed_in(accounts, cfg)[i])
                == WbVariant::Cn && !excluded(allowed_in(accounts, cfg)[i], cfg),
        forall|i: int|
            0 <= i < all_for(accounts, v).len() ==> variant::variant_in(#[trigger] all_for(accounts, v)[i])
                == WbVariant::Cn,
    decreases accounts.len(),
{
    if accounts.len() > 0 {
        only_domestic_accounts_check_in(accounts.subrange(0, accounts.len() - 1), cfg, v);
    }
}

/// A token never leaves its edition: what renews it, what checks in with it and what
/// asks for its credits goes to the edition's own address. For the domestic edition
/// credits are asked for at one of its two addresses.
pub proof fn requests_stay_in_their_edition(acc: JsonV, suffix: Seq<char>, path: Seq<char>, i: int)
    ensures
        ({
            let v = variant::variant_in(acc);
            let urls = v.candidates(config::CHECKIN_API_PREFIX@ + suffix).map_values(
                |p: Seq<char>| v.endpoint() + p,
            );
            &&& text::starts_with(refresh::refresh_address(acc), v.endpoint())
            &&& 0 <= i < urls.len() ==> text::starts_with(urls[i], v.endpoint())
            &&& v == WbVariant::Ai ==> text::starts_with(credits::base_of(acc) + path, v.endpoint())
            &&& v == WbVariant::Cn ==> credits::base_of(acc) == v.endpoint() || credits::base_of(acc)
                == credits::WORKBUDDY_WEB_ENDPOINT@
            &&& WbVariant::Cn.endpoint() != WbVariant::Ai.endpoint() && credits::WORKBUDDY_WEB_ENDPOINT@
                != WbVariant::Ai.endpoint()
        }),
{
    reveal_strlit("https://www.codebuddy.cn");
    reveal_strlit("https://www.workbuddy.cn");
    reveal_strlit("https://www.workbuddy.ai");
    assert("https://www.codebuddy.cn"@[12] == 'c' && "https://www.workbuddy.ai"@[12] == 'w');
    assert("https://www.workbuddy.cn"@[22] == 'c' && "https://www.workbuddy.ai"@[22] == 'a');
    let v = variant::variant_in(acc);
    let e = v.endpoint();
    let rest = variant::WORKBUDDY_API_PREFIX@ + "/auth/token/refresh"@;
    assert(refresh::refresh_address(acc) =~= e + rest);
    assert((e + rest).subrange(0, e.len() as int) =~= e);
    let paths = v.candidates(config::CHECKIN_API_PREFIX@ + suffix);
    if 0 <= i < paths.len() {
        assert((e + paths[i]).subrange(0, e.len() as int) =~= e);
    }
    let b = credits::base_of(acc);
    assert((b + path).subrange(0, b.len() as int) =~= b);
}

} // verus!
