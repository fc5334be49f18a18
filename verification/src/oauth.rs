//! Logging in by a scanned code: the logins under way, what is asked of the
//! service, and the account that comes out of its answers.
use vstd::prelude::*;
use crate::account;
use crate::config;
use crate::config::OAUTH_TIMEOUT_SECONDS;
use crate::ids;
use crate::json;
use crate::json::{Json, JsonV};
use crate::refresh;
use crate::text;
use crate::text::same;
use crate::textmap::TextMap;
use crate::variant;
use crate::variant::WbVariant;

verus! {

/// A login under way, or finished.
pub struct OAuthInfo {
    /// The edition that it was started for: all of its requests go there.
    pub variant: WbVariant,
    /// What the service calls it.
    pub state: String,
    /// When it is given up, in seconds.
    pub expires_at: i64,
    /// Whether it is finished.
    pub done: bool,
    /// The account that it brought.
    pub result: Option<Json>,
    /// Why it failed.
    pub error: Option<String>,
}

/// What a login is.
pub struct LoginV {
    pub variant: WbVariant,
    pub state: Seq<char>,
    pub expires_at: int,
    pub done: bool,
    pub result: Option<JsonV>,
    pub error: Option<Seq<char>>,
}

impl OAuthInfo {
    pub open spec fn view(&self) -> LoginV {
        LoginV {
            variant: self.variant,
            state: self.state@,
            expires_at: self.expires_at as int,
            done: self.done,
            result: account::opt_json(self.result),
            error: json::opt_string(self.error),
        }
    }
}

/// The logins, by their identifiers.
pub struct Logins {
    entries: Vec<(String, OAuthInfo)>,
}

/// The map that a list of entries stands for.
pub closed spec fn logins_view(s: Seq<(String, OAuthInfo)>) -> Map<Seq<char>, LoginV>
    decreases s.len(),
{
    if s.len() == 0 {
        Map::empty()
    } else {
        logins_view(s.subrange(0, s.len() - 1)).insert(s[s.len() - 1].0@, s[s.len() - 1].1@)
    }
}

proof fn logins_update(s: Seq<(String, OAuthInfo)>, i: int, e: (String, OAuthInfo))
    requires
        0 <= i < s.len(),
        s[i].0@ == e.0@,
        forall|j: int| i < j < s.len() ==> (#[trigger] s[j]).0@ != e.0@,
    ensures
        logins_view(s.update(i, e)) == logins_view(s).insert(e.0@, e.1@),
    decreases s.len(),
{
    let t = s.update(i, e);
    let n = s.len() - 1;
    if i == n {
        assert(t.subrange(0, n) =~= s.subrange(0, n));
        assert(logins_view(t) =~= logins_view(s).insert(e.0@, e.1@));
    } else {
        assert(t.subrange(0, n) =~= s.subrange(0, n).update(i, e));
        logins_update(s.subrange(0, n), i, e);
        assert(t[n] == s[n]);
        assert(logins_view(t) =~= logins_view(s).insert(e.0@, e.1@));
    }
}

proof fn logins_lookup(s: Seq<(String, OAuthInfo)>, id: Seq<char>, from: int)
    requires
        0 <= from <= s.len(),
        forall|j: int| from <= j < s.len() ==> (#[trigger] s[j]).0@ != id,
    ensures
        from == 0 ==> !logins_view(s).contains_key(id),
        from > 0 && s[from - 1].0@ == id ==> logins_view(s).contains_key(id) && logins_view(s)[id] == s[from - 1].1@,
    decreases s.len(),
{
    if s.len() > from {
        logins_lookup(s.subrange(0, s.len() - 1), id, from);
    }
}

/// The login under an identifier.
pub open spec fn login_in(m: Map<Seq<char>, LoginV>, id: Seq<char>) -> Option<LoginV> {
    if m.contains_key(id) {
        Some(m[id])
    } else {
        None
    }
}

/// What a looked-up login is.
pub open spec fn opt_login(o: Option<&OAuthInfo>) -> Option<LoginV> {
    match o {
        Some(i) => Some(i@),
        None => None,
    }
}

impl Logins {
    pub closed spec fn view(&self) -> Map<Seq<char>, LoginV> {
        logins_view(self.entries@)
    }

    /// No logins.
    pub fn new() -> (m: Logins)
        ensures
            m@ == Map::<Seq<char>, LoginV>::empty(),
    {
        Logins { entries: Vec::new() }
    }

    /// The login under an identifier.
    pub fn get(&self, id: &str) -> (r: Option<&OAuthInfo>)
        ensures
            opt_login(r) == login_in(self@, id@),
    {
        let mut i: usize = self.entries.len();
        while i > 0
            invariant
                i <= self.entries@.len(),
                forall|j: int| i <= j < self.entries@.len() ==> (#[trigger] self.entries@[j]).0@ != id@,
            decreases i,
        {
            if same(self.entries[i - 1].0.as_str(), id) {
                proof {
                    logins_lookup(self.entries@, id@, i as int);
                }
                return Some(&self.entries[i - 1].1);
            }
            i -= 1;
        }
        proof {
            logins_lookup(self.entries@, id@, 0);
        }
        None
    }

    /// Puts a login under an identifier, in place of the one that was there.
    pub fn insert(&mut self, id: String, info: OAuthInfo)
        ensures
            final(self)@ == old(self)@.insert(id@, info@),
    {
        let ghost before = self.entries@;
        let mut i: usize = self.entries.len();
        while i > 0
            invariant
                i <= self.entries@.len(),
                self.entries@ == before,
                before == old(self).entries@,
                forall|j: int| i <= j < self.entries@.len() ==> (#[trigger] self.entries@[j]).0@ != id@,
            decreases i,
        {
            if same(self.entries[i - 1].0.as_str(), id.as_str()) {
                let e: (String, OAuthInfo) = (id, info);
                proof {
                    logins_update(before, i - 1, e);
                }
                self.entries.set(i - 1, e);
                return;
            }
            i -= 1;
        }
        self.entries.push((id, info));
        assert(self.entries@.subrange(0, self.entries@.len() - 1) =~= before);
    }
}

/// The login, finished with a result or an error.
pub open spec fn finished(login: LoginV, result: Option<JsonV>, error: Option<Seq<char>>) -> LoginV {
    LoginV { done: true, result, error, ..login }
}

/// The logins with one of them finished, where it is there.
pub open spec fn finish_in(
    m: Map<Seq<char>, LoginV>,
    id: Seq<char>,
    result: Option<JsonV>,
    error: Option<Seq<char>>,
) -> Map<Seq<char>, LoginV> {
    if m.contains_key(id) {
        m.insert(id, finished(m[id], result, error))
    } else {
        m
    }
}

impl Logins {
    /// Finishes a login with its account, which leaves its error as it is.
    fn succeed(&mut self, id: &str, result: Json)
        ensures
            final(self)@ == (if old(self)@.contains_key(id@) {
                old(self)@.insert(id@, finished(old(self)@[id@], Some(result@), old(self)@[id@].error))
            } else {
                old(self)@
            }),
    {
        let next: Option<OAuthInfo> = match self.get(id) {
            Some(info) => Some(
                OAuthInfo {
                    variant: info.variant,
                    state: info.state.clone(),
                    expires_at: info.expires_at,
                    done: true,
                    result: Some(result),
                    error: copy_text(&info.error),
                },
            ),
            None => None,
        };
        match next {
            Some(info) => self.insert(id.to_owned(), info),
            None => {},
        }
    }

    /// Finishes a login with an error, which leaves its result as it is.
    fn fail(&mut self, id: &str, error: &str)
        ensures
            final(self)@ == (if old(self)@.contains_key(id@) {
                old(self)@.insert(id@, finished(old(self)@[id@], old(self)@[id@].result, Some(error@)))
            } else {
                old(self)@
            }),
    {
        let next: Option<OAuthInfo> = match self.get(id) {
            Some(info) => Some(
                OAuthInfo {
                    variant: info.variant,
                    state: info.state.clone(),
                    expires_at: info.expires_at,
                    done: true,
                    result: copy_json(&info.result),
                    error: Some(error.to_owned()),
                },
            ),
            None => None,
        };
        match next {
            Some(info) => self.insert(id.to_owned(), info),
            None => {},
        }
    }
}

fn copy_text(o: &Option<String>) -> (r: Option<String>)
    ensures
        json::opt_string(r) == json::opt_string(*o),
{
    match o {
        Some(s) => Some(s.as_str().to_owned()),
        None => None,
    }
}

fn copy_json(o: &Option<Json>) -> (r: Option<Json>)
    ensures
        account::opt_json(r) == account::opt_json(*o),
{
    match o {
        Some(j) => Some(j.clone()),
        None => None,
    }
}

/// The platform name of an edition.
pub open spec fn platform(v: WbVariant) -> Seq<char> {
    match v {
        WbVariant::Cn => variant::WORKBUDDY_PLATFORM@,
        WbVariant::Ai => variant::WORKBUDDY_AI_PLATFORM@,
    }
}

/// The address that starts a login.
pub fn oauth_state_url(v: WbVariant) -> (r: String)
    ensures
        r@ == v.endpoint() + variant::WORKBUDDY_API_PREFIX@ + "/auth/state?platform="@ + platform(v),
{
    let front: String = text::concat3(v.api_endpoint(), v.api_prefix(), "/auth/state?platform=");
    text::concat(front.as_str(), v.oauth_platform())
}

/// The address that gives a login's token.
pub open spec fn token_address(v: WbVariant, state: Seq<char>) -> Seq<char> {
    v.endpoint() + variant::WORKBUDDY_API_PREFIX@ + "/auth/token?state="@ + state
}

/// The address that gives a login's token: that of the edition it was started for.
pub fn oauth_token_url(v: WbVariant, state: &str) -> (r: String)
    ensures
        r@ == token_address(v, state@),
{
    let front: String = text::concat3(v.api_endpoint(), v.api_prefix(), "/auth/token?state=");
    text::concat(front.as_str(), state)
}

/// The address that gives a login's profile.
pub open spec fn profile_address(v: WbVariant, state: Seq<char>) -> Seq<char> {
    v.endpoint() + variant::WORKBUDDY_API_PREFIX@ + "/login/account?state="@ + state
}

/// The address that gives a login's profile: that of the edition it was started for.
pub fn oauth_account_url(v: WbVariant, state: &str) -> (r: String)
    ensures
        r@ == profile_address(v, state@),
{
    let front: String = text::concat3(v.api_endpoint(), v.api_prefix(), "/login/account?state=");
    text::concat(front.as_str(), state)
}

/// What the service calls the login that an answer starts; empty where it starts none.
pub open spec fn started_state(resp: JsonV) -> Seq<char> {
    refresh::text_or_empty(refresh::data_of(resp), "state"@)
}

/// Where the code to scan is shown.
pub open spec fn scan_address(v: WbVariant, resp: JsonV) -> Seq<char> {
    let data = refresh::data_of(resp);
    match account::first_of(
        data.get_str("authUrl"@),
        account::first_of(data.get_str("auth_url"@), data.get_str("url"@)),
    ) {
        Some(s) => s,
        None => v.endpoint() + "/login?state="@ + started_state(resp),
    }
}

/// A login just started.
pub open spec fn new_login(v: WbVariant, resp: JsonV, now_secs: int) -> LoginV {
    LoginV {
        variant: v,
        state: started_state(resp),
        expires_at: (now_secs as i64).wrapping_add(OAUTH_TIMEOUT_SECONDS) as int,
        done: false,
        result: None,
        error: None,
    }
}

/// What is told of a login just started.
pub open spec fn start_notice(id: Seq<char>, v: WbVariant, resp: JsonV) -> JsonV {
    JsonV::empty().put("loginId"@, JsonV::Str(id)).put("verificationUri"@, JsonV::Str(scan_address(v, resp))).put(
        "expiresIn"@,
        JsonV::Int(OAUTH_TIMEOUT_SECONDS as int),
    )
}

/// Why an answer starts no login; it quotes the beginning of the answer's text.
pub open spec fn no_state(resp_text: Seq<char>) -> Seq<char> {
    "auth/state 响应缺少 state: "@ + text::head(resp_text, 300)
}

/// Starts a login under an identifier by the service's answer, whose text is
/// quoted where it starts none.
pub fn start_login_as(
    logins: &mut Logins,
    id: &str,
    v: WbVariant,
    resp: &Json,
    resp_text: &str,
    now_secs: i64,
) -> (r: Result<Json, String>)
    ensures
        if started_state(resp@).len() == 0 {
            r matches Err(e) && e@ == no_state(resp_text@) && final(logins)@ == old(logins)@
        } else {
            r matches Ok(j) && j@ == start_notice(id@, v, resp@) && final(logins)@ == old(logins)@.insert(
                id@,
                new_login(v, resp@, now_secs as int),
            )
        },
{
    let data: Json = refresh::response_data(resp);
    let state: String = refresh::get_text(&data, "state");
    if state.as_str().is_empty() {
        let quoted: String = text::head_of(resp_text, 300);
        return Err(text::concat("auth/state 响应缺少 state: ", quoted.as_str()));
    }
    let given: Option<&str> = match data.get_str("authUrl") {
        Some(s) => Some(s),
        None => refresh::text_by_either(&data, "auth_url", "url"),
    };
    let uri: String = match given {
        Some(s) => s.to_owned(),
        None => text::concat3(v.api_endpoint(), "/login?state=", state.as_str()),
    };
    logins.insert(
        id.to_owned(),
        OAuthInfo {
            variant: v,
            state,
            expires_at: now_secs.wrapping_add(OAUTH_TIMEOUT_SECONDS),
            done: false,
            result: None,
            error: None,
        },
    );
    Ok(
        Json::object().put("loginId", Json::text(id)).put("verificationUri", Json::text(uri.as_str())).put(
            "expiresIn",
            Json::num(OAUTH_TIMEOUT_SECONDS),
        ),
    )
}

/// Starts a login under a fresh identifier by the service's answer.
pub fn oauth_start(logins: &mut Logins, v: WbVariant, resp: &Json, resp_text: &str, now_secs: i64) -> (r: Result<
    Json,
    String,
>)
    ensures
        if started_state(resp@).len() == 0 {
            r matches Err(e) && e@ == no_state(resp_text@) && final(logins)@ == old(logins)@
        } else {
            exists|id: Seq<char>| #[trigger]
                ids::login_id(id) && r is Ok && r->Ok_0@ == start_notice(id, v, resp@) && final(logins)@ == old(
                    logins,
                )@.insert(id, new_login(v, resp@, now_secs as int))
        },
{
    let id: String = ids::new_login_id();
    let r: Result<Json, String> = start_login_as(logins, id.as_str(), v, resp, resp_text, now_secs);
    assert(ids::login_id(id@));
    r
}

/// How an edition is named to people.
pub open spec fn edition_name(v: WbVariant) -> Seq<char> {
    match v {
        WbVariant::Cn => "国内版"@,
        WbVariant::Ai => "国际版"@,
    }
}

/// Why an answer's domain is refused, where it belongs to the other edition.
pub open spec fn mismatch(v: WbVariant, domain: Seq<char>) -> Option<Seq<char>> {
    if domain.len() == 0 || variant::variant_of_domain(domain) == v {
        None
    } else {
        Some("登录响应的 domain（"@ + domain + "）与"@ + edition_name(v) + "档位不符，已拒绝入库"@)
    }
}

/// Why an answer's domain is refused, where it belongs to the other edition.
pub fn domain_mismatch_error(v: WbVariant, domain: &str) -> (r: Option<String>)
    ensures
        json::opt_string(r) == mismatch(v, domain@),
{
    if v.matches_domain(domain) {
        return None;
    }
    let edition: &str = match v {
        WbVariant::Cn => "国内版",
        WbVariant::Ai => "国际版",
    };
    let front: String = text::concat3("登录响应的 domain（", domain, "）与");
    Some(text::concat3(front.as_str(), edition, "档位不符，已拒绝入库"))
}

/// An answer that says why a login failed.
pub open spec fn failed_answer(error: Seq<char>) -> JsonV {
    JsonV::empty().put("done"@, JsonV::Bool(true)).put("error"@, JsonV::Str(error))
}

fn failed(error: &str) -> (r: Json)
    ensures
        r@ == failed_answer(error@),
{
    Json::object().put("done", Json::Bool(true)).put("error", Json::text(error))
}

/// An answer that says that a login is under way.
pub open spec fn waiting_answer() -> JsonV {
    JsonV::empty().put("done"@, JsonV::Bool(false))
}

fn waiting() -> (r: Json)
    ensures
        r@ == waiting_answer(),
{
    Json::object().put("done", Json::Bool(false))
}

/// What a poll does first.
pub enum PollStart {
    /// It answers.
    Answer(Json),
    /// It asks for the login's token.
    AskToken { variant: WbVariant, state: String },
}

/// What a poll does first.
pub enum PollStartV {
    Answer(JsonV),
    AskToken { variant: WbVariant, state: Seq<char> },
}

impl PollStart {
    pub open spec fn view(&self) -> PollStartV {
        match self {
            PollStart::Answer(j) => PollStartV::Answer(j@),
            PollStart::AskToken { variant, state } => PollStartV::AskToken { variant: *variant, state: state@ },
        }
    }
}

/// What a finished login answers.
pub open spec fn final_answer(login: LoginV) -> JsonV {
    JsonV::empty().put("done"@, JsonV::Bool(true)).put("result"@, json::value_or_null(login.result)).put(
        "error"@,
        json::text_or_null(login.error),
    )
}

/// How a poll begins: an unknown login fails, a finished one answers what it
/// came to, one whose time is over is finished, any other asks for its token.
pub open spec fn poll_begun(m: Map<Seq<char>, LoginV>, id: Seq<char>, now_secs: int) -> (
    Map<Seq<char>, LoginV>,
    PollStartV,
) {
    match login_in(m, id) {
        None => (m, PollStartV::Answer(failed_answer("登录请求不存在"@))),
        Some(login) => if login.done {
            (m, PollStartV::Answer(final_answer(login)))
        } else if now_secs > login.expires_at {
            (
                m.insert(id, finished(login, login.result, Some("登录超时"@))),
                PollStartV::Answer(failed_answer("登录超时"@)),
            )
        } else {
            (m, PollStartV::AskToken { variant: login.variant, state: login.state })
        },
    }
}

/// Begins a poll.
pub fn oauth_poll_begin(logins: &mut Logins, id: &str, now_secs: i64) -> (r: PollStart)
    ensures
        (final(logins)@, r@) == poll_begun(old(logins)@, id@, now_secs as int),
{
    let over: bool = match logins.get(id) {
        None => {
            return PollStart::Answer(failed("登录请求不存在"));
        },
        Some(info) => {
            if info.done {
                let result: Json = match &info.result {
                    Some(j) => j.clone(),
                    None => Json::Null,
                };
                let error: Json = match &info.error {
                    Some(e) => Json::text(e.as_str()),
                    None => Json::Null,
                };
                return PollStart::Answer(
                    Json::object().put("done", Json::Bool(true)).put("result", result).put("error", error),
                );
            }
            if now_secs > info.expires_at {
                true
            } else {
                return PollStart::AskToken { variant: info.variant, state: info.state.as_str().to_owned() };
            }
        },
    };
    if over {
        logins.fail(id, "登录超时");
    }
    PollStart::Answer(failed("登录超时"))
}

/// What a poll does once it has the answer to its request for the token.
pub enum PollToken {
    /// It answers.
    Answer(Json),
    /// It asks for the login's profile, with these headers.
    AskProfile { url: String, headers: TextMap },
}

/// The access token in an answer; empty where it has none yet.
pub open spec fn token_in(resp: JsonV) -> Seq<char> {
    account::or_empty(refresh::either_text(refresh::data_of(resp), "accessToken"@, "access_token"@))
}

/// Whether an answer brings the token.
pub open spec fn token_granted(resp: JsonV) -> bool {
    (refresh::code_of(resp) == 0 || refresh::code_of(resp) == 200) && token_in(resp).len() > 0
}

/// The domain that an answer names; empty where it names none.
pub open spec fn domain_in(resp: JsonV) -> Seq<char> {
    refresh::text_or_empty(refresh::data_of(resp), "domain"@)
}

/// The headers of the request for the profile.
pub open spec fn profile_headers(resp: JsonV) -> Map<Seq<char>, Seq<char>> {
    let m = Map::<Seq<char>, Seq<char>>::empty().insert("Authorization"@, "Bearer "@ + token_in(resp));
    if domain_in(resp).len() > 0 {
        m.insert("X-Domain"@, domain_in(resp))
    } else {
        m
    }
}

/// The logins with one of them failed, where it is there.
pub open spec fn fail_in(m: Map<Seq<char>, LoginV>, id: Seq<char>, error: Seq<char>) -> Map<Seq<char>, LoginV> {
    if m.contains_key(id) {
        finish_in(m, id, m[id].result, Some(error))
    } else {
        m
    }
}

fn token_text(data: &Json) -> (r: String)
    ensures
        r@ == account::or_empty(refresh::either_text(data@, "accessToken"@, "access_token"@)),
{
    match refresh::text_by_either(data, "accessToken", "access_token") {
        Some(s) => s.to_owned(),
        None => String::new(),
    }
}

/// Goes on with a poll by the answer to its request for the token: it waits
/// until the token is there, refuses the token of the other edition, and else
/// asks for the profile.
pub fn oauth_poll_token(logins: &mut Logins, id: &str, v: WbVariant, state: &str, resp: &Json) -> (r: PollToken)
    ensures
        if !token_granted(resp@) {
            r matches PollToken::Answer(j) && j@ == waiting_answer() && final(logins)@ == old(logins)@
        } else {
            match mismatch(v, domain_in(resp@)) {
                Some(e) => r matches PollToken::Answer(j) && j@ == failed_answer(e) && final(logins)@ == fail_in(
                    old(logins)@,
                    id@,
                    e,
                ),
                None => r matches PollToken::AskProfile { url, headers } && url@ == profile_address(v, state@)
                    && headers@ == profile_headers(resp@) && final(logins)@ == old(logins)@,
            }
        },
{
    let code: i64 = refresh::response_code(resp);
    if code != 0 && code != 200 {
        return PollToken::Answer(waiting());
    }
    let data: Json = refresh::response_data(resp);
    let token: String = token_text(&data);
    if token.as_str().is_empty() {
        return PollToken::Answer(waiting());
    }
    let domain: String = refresh::get_text(&data, "domain");
    match domain_mismatch_error(v, domain.as_str()) {
        Some(e) => {
            logins.fail(id, e.as_str());
            return PollToken::Answer(failed(e.as_str()));
        },
        None => {},
    }
    let mut headers: TextMap = TextMap::new();
    headers.insert("Authorization".to_owned(), text::concat("Bearer ", token.as_str()));
    if !domain.as_str().is_empty() {
        headers.insert("X-Domain".to_owned(), domain);
    }
    PollToken::AskProfile { url: oauth_account_url(v, state), headers }
}

/// The e-mail address of a profile: trimmed, and not made up from other members.
pub open spec fn profile_email(profile: JsonV) -> Option<Seq<char>> {
    match profile.get_str("email"@) {
        Some(s) => if text::trim(s).len() > 0 {
            Some(text::trim(s))
        } else {
            None
        },
        None => None,
    }
}

/// The e-mail address of a profile.
pub fn oauth_profile_email(profile: &Json) -> (r: Option<String>)
    ensures
        json::opt_string(r) == profile_email(profile@),
{
    match profile.get_str("email") {
        Some(s) => {
            let t: String = text::trimmed(s);
            if t.as_str().is_empty() {
                None
            } else {
                Some(t)
            }
        },
        None => None,
    }
}

/// The account that the answers for token and profile make up.
pub open spec fn login_account(v: WbVariant, resp: JsonV, profile_resp: JsonV, id: Seq<char>, now: int) -> JsonV {
    let data = refresh::data_of(resp);
    let profile = refresh::data_of(profile_resp);
    JsonV::empty().put("id"@, JsonV::Str(id)).put("uid"@, json::text_or_null(profile.get_str("uid"@))).put(
        "nickname"@,
        json::text_or_null(profile.get_str("nickname"@)),
    ).put("email"@, json::text_or_null(profile_email(profile))).put(
        "enterpriseName"@,
        json::value_or_null(profile.get("enterpriseName"@)),
    ).put("enterpriseId"@, json::value_or_null(profile.get("enterpriseId"@))).put(
        "access_token"@,
        JsonV::Str(token_in(resp)),
    ).put("refresh_token"@, json::text_or_null(refresh::either_text(data, "refreshToken"@, "refresh_token"@))).put(
        "token_type"@,
        JsonV::Str(
            match refresh::either_text(data, "tokenType"@, "token_type"@) {
                Some(t) => t,
                None => "Bearer"@,
            },
        ),
    ).put("domain"@, JsonV::Str(domain_in(resp))).put("variant"@, JsonV::Str(v.name())).put(
        "expiresAt"@,
        json::int_or_null(
            refresh::or_time(
                refresh::either_time(data, "expiresAt"@, "expires_at"@),
                refresh::time_ahead(data, "expiresIn"@, now),
            ),
        ),
    ).put(
        "refreshExpiresAt"@,
        json::int_or_null(
            refresh::or_time(
                refresh::either_time(data, "refreshExpiresAt"@, "refresh_expires_at"@),
                refresh::time_ahead(data, "refreshExpiresIn"@, now),
            ),
        ),
    ).put("auth_raw"@, data).put("profile_raw"@, profile).put("createdAt"@, JsonV::Int(now))
}

fn build_account(v: WbVariant, resp: &Json, profile: &Json, id: &str, now: i64, Ghost(profile_resp): Ghost<JsonV>) -> (r:
    Json)
    requires
        profile@ == refresh::data_of(profile_resp),
    ensures
        r@ == login_account(v, resp@, profile_resp, id@, now as int),
{
    let data: Json = refresh::response_data(resp);
    let token: String = token_text(&data);
    let domain: String = refresh::get_text(&data, "domain");
    let expiry: Option<i64> = match refresh::time_by_either(&data, "expiresAt", "expires_at") {
        Some(t) => Some(t),
        None => refresh::ahead(&data, "expiresIn", now),
    };
    let refresh_expiry: Option<i64> = match refresh::time_by_either(&data, "refreshExpiresAt", "refresh_expires_at") {
        Some(t) => Some(t),
        None => refresh::ahead(&data, "refreshExpiresIn", now),
    };
    let token_type: &str = match refresh::text_by_either(&data, "tokenType", "token_type") {
        Some(t) => t,
        None => "Bearer",
    };
    Json::object().put("id", Json::text(id)).put("uid", Json::opt_text(profile.get_str("uid"))).put(
        "nickname",
        Json::opt_text(profile.get_str("nickname")),
    ).put("email", Json::opt_string(oauth_profile_email(profile))).put(
        "enterpriseName",
        Json::or_null(profile.get("enterpriseName")),
    ).put("enterpriseId", Json::or_null(profile.get("enterpriseId"))).put(
        "access_token",
        Json::text(token.as_str()),
    ).put("refresh_token", Json::opt_text(refresh::text_by_either(&data, "refreshToken", "refresh_token"))).put(
        "token_type",
        Json::text(token_type),
    ).put("domain", Json::text(domain.as_str())).put("variant", Json::text(v.as_str())).put(
        "expiresAt",
        Json::opt_int(expiry),
    ).put("refreshExpiresAt", Json::opt_int(refresh_expiry)).put("auth_raw", data.clone()).put(
        "profile_raw",
        profile.clone(),
    ).put("createdAt", Json::num(now))
}

/// What a poll does once it has the profile.
pub enum PollProfile {
    /// It answers.
    Answer(Json),
    /// It stores the account.
    Save(Json),
}

/// Goes on with a poll by the profile: it refuses a profile of the other
/// edition, and else stores the account under the identifier.
pub fn oauth_poll_profile(
    logins: &mut Logins,
    login: &str,
    v: WbVariant,
    resp: &Json,
    profile_resp: &Json,
    id: &str,
    now: i64,
) -> (r: PollProfile)
    ensures
        match mismatch(v, domain_in(profile_resp@)) {
            Some(e) => r matches PollProfile::Answer(j) && j@ == failed_answer(e) && final(logins)@ == fail_in(
                old(logins)@,
                login@,
                e,
            ),
            None => r matches PollProfile::Save(a) && a@ == login_account(v, resp@, profile_resp@, id@, now as int)
                && final(logins)@ == old(logins)@,
        },
{
    let profile: Json = refresh::response_data(profile_resp);
    let domain: String = refresh::get_text(&profile, "domain");
    match domain_mismatch_error(v, domain.as_str()) {
        Some(e) => {
            logins.fail(login, e.as_str());
            PollProfile::Answer(failed(e.as_str()))
        },
        None => PollProfile::Save(build_account(v, resp, &profile, id, now, Ghost(profile_resp@))),
    }
}

/// Goes on with a poll by the profile, with a fresh identifier for the account.
pub fn oauth_poll_collect(
    logins: &mut Logins,
    login: &str,
    v: WbVariant,
    resp: &Json,
    profile_resp: &Json,
    now: i64,
) -> (r: PollProfile)
    ensures
        match mismatch(v, domain_in(profile_resp@)) {
            Some(e) => r matches PollProfile::Answer(j) && j@ == failed_answer(e) && final(logins)@ == fail_in(
                old(logins)@,
                login@,
                e,
            ),
            None => exists|id: Seq<char>| #[trigger]
                ids::grouped_uuid(id) && r is Save && r->Save_0@ == login_account(
                    v,
                    resp@,
                    profile_resp@,
                    id,
                    now as int,
                ) && final(logins)@ == old(logins)@,
        },
{
    let id: String = ids::new_id();
    assert(ids::grouped_uuid(id@));
    oauth_poll_profile(logins, login, v, resp, profile_resp, id.as_str(), now)
}

/// Ends a poll by the outcome of storing the account: the stored account, or why
/// it could not be stored.
pub fn oauth_poll_saved(logins: &mut Logins, id: &str, saved: Result<Json, String>) -> (r: Json)
    ensures
        match saved {
            Ok(acc) => r@ == JsonV::empty().put("done"@, JsonV::Bool(true)).put("result"@, account::meta(acc@))
                && final(logins)@ == (if old(logins)@.contains_key(id@) {
                finish_in(old(logins)@, id@, Some(account::meta(acc@)), old(logins)@[id@].error)
            } else {
                old(logins)@
            }),
            Err(e) => r@ == failed_answer("保存账号失败: "@ + e@) && final(logins)@ == fail_in(
                old(logins)@,
                id@,
                "保存账号失败: "@ + e@,
            ),
        },
{
    match saved {
        Ok(acc) => {
            let meta: Json = account::account_meta(&acc);
            logins.succeed(id, meta.clone());
            Json::object().put("done", Json::Bool(true)).put("result", meta)
        },
        Err(e) => {
            let error: String = text::concat("保存账号失败: ", e.as_str());
            logins.fail(id, error.as_str());
            failed(error.as_str())
        },
    }
}

/// A poll touches no login but its own: every step leaves the other logins as
/// they are.
pub proof fn polls_do_not_mix(m: Map<Seq<char>, LoginV>, id: Seq<char>, other: Seq<char>, now: int, e: Seq<char>)
    requires
        id != other,
    ensures
        login_in(poll_begun(m, id, now).0, other) == login_in(m, other),
        login_in(fail_in(m, id, e), other) == login_in(m, other),
{
}

/// A login keeps the edition and the state that it was started with, whatever a
/// poll does, and once finished it stays so and keeps what it answers.
pub proof fn logins_stay_finished(m: Map<Seq<char>, LoginV>, id: Seq<char>, now: int, later: int)
    requires
        m.contains_key(id),
    ensures
        ({
            let n = poll_begun(m, id, now).0;
            &&& n.contains_key(id)
            &&& n[id].variant == m[id].variant && n[id].state == m[id].state
            &&& n[id].done ==> poll_begun(n, id, later) == (n, PollStartV::Answer(final_answer(n[id])))
        }),
{
}

/// The account that a login brings belongs to the edition it was started for.
pub proof fn login_account_has_edition(v: WbVariant, resp: JsonV, profile_resp: JsonV, id: Seq<char>, now: int)
    ensures
        variant::variant_in(login_account(v, resp, profile_resp, id, now)) == v,
{
    reveal_strlit("variant");
    reveal_strlit("expiresAt");
    reveal_strlit("refreshExpiresAt");
    reveal_strlit("auth_raw");
    reveal_strlit("profile_raw");
    reveal_strlit("createdAt");
    reveal_strlit("cn");
    reveal_strlit("ai");
    assert("variant"@.len() == 7 && "expiresAt"@.len() == 9 && "refreshExpiresAt"@.len() == 16);
    assert("auth_raw"@.len() == 8 && "profile_raw"@.len() == 11 && "createdAt"@.len() == 9);
    assert("cn"@[0] == 'c' && "ai"@[0] == 'a');
    let acc = login_account(v, resp, profile_resp, id, now);
    assert(acc.get("variant"@) == Some(JsonV::Str(v.name())));
}

} // verus!
