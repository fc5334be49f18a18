//! What logging in and clearing doubled sessions promise.
use vstd::prelude::*;
use crate::dedup;
use crate::dedup::{GroupV, SessionV};
use crate::json::JsonV;
use crate::oauth;
use crate::oauth::{LoginV, PollStartV};
use crate::text;
use crate::variant;
use crate::variant::WbVariant;

verus! {

proof fn group_names()
    ensures
        "lastActivityAt"@ != "title"@,
        "lastActivityAt"@ != "cwd"@,
        "lastActivityAt"@ != "count"@,
        "lastActivityAt"@ != "keepId"@,
        "lastActivityAt"@ != "dupIds"@,
        "title"@ != "cwd"@,
        "title"@ != "count"@,
        "title"@ != "keepId"@,
        "title"@ != "dupIds"@,
        "cwd"@ != "count"@,
        "cwd"@ != "keepId"@,
        "cwd"@ != "dupIds"@,
        "count"@ != "keepId"@,
        "count"@ != "dupIds"@,
        "keepId"@ != "dupIds"@,
{
    reveal_strlit("lastActivityAt");
    reveal_strlit("title");
    reveal_strlit("cwd");
    reveal_strlit("count");
    reveal_strlit("keepId");
    reveal_strlit("dupIds");
    assert("lastActivityAt"@.len() == 14);
    assert("title"@.len() == 5);
    assert("cwd"@.len() == 3);
    assert("count"@.len() == 5);
    assert("keepId"@.len() == 6);
    assert("dupIds"@.len() == 6);
    assert("title"@[0] != "count"@[0]);
    assert("keepId"@[0] != "dupIds"@[0]);
}

proof fn login_names()
    ensures
        "id"@ != "uid"@,
        "id"@ != "nickname"@,
        "id"@ != "email"@,
        "id"@ != "enterpriseName"@,
        "id"@ != "enterpriseId"@,
        "id"@ != "access_token"@,
        "id"@ != "refresh_token"@,
        "id"@ != "token_type"@,
        "id"@ != "domain"@,
        "id"@ != "variant"@,
        "id"@ != "expiresAt"@,
        "id"@ != "refreshExpiresAt"@,
        "id"@ != "auth_raw"@,
        "id"@ != "profile_raw"@,
        "id"@ != "createdAt"@,
        "uid"@ != "nickname"@,
        "uid"@ != "email"@,
        "uid"@ != "enterpriseName"@,
        "uid"@ != "enterpriseId"@,
        "uid"@ != "access_token"@,
        "uid"@ != "refresh_token"@,
        "uid"@ != "token_type"@,
        "uid"@ != "domain"@,
        "uid"@ != "variant"@,
        "uid"@ != "expiresAt"@,
        "uid"@ != "refreshExpiresAt"@,
        "uid"@ != "auth_raw"@,
        "uid"@ != "profile_raw"@,
        "uid"@ != "createdAt"@,
        "nickname"@ != "email"@,
        "nickname"@ != "enterpriseName"@,
        "nickname"@ != "enterpriseId"@,
        "nickname"@ != "access_token"@,
        "nickname"@ != "refresh_token"@,
        "nickname"@ != "token_type"@,
        "nickname"@ != "domain"@,
        "nickname"@ != "variant"@,
        "nickname"@ != "expiresAt"@,
        "nickname"@ != "refreshExpiresAt"@,
        "nickname"@ != "auth_raw"@,
        "nickname"@ != "profile_raw"@,
        "nickname"@ != "createdAt"@,
        "email"@ != "enterpriseName"@,
        "email"@ != "enterpriseId"@,
        "email"@ != "access_token"@,
        "email"@ != "refresh_token"@,
        "email"@ != "token_type"@,
        "email"@ != "domain"@,
        "email"@ != "variant"@,
        "email"@ != "expiresAt"@,
        "email"@ != "refreshExpiresAt"@,
        "email"@ != "auth_raw"@,
        "email"@ != "profile_raw"@,
        "email"@ != "createdAt"@,
        "enterpriseName"@ != "enterpriseId"@,
        "enterpriseName"@ != "access_token"@,
        "enterpriseName"@ != "refresh_token"@,
        "enterpriseName"@ != "token_type"@,
        "enterpriseName"@ != "domain"@,
        "enterpriseName"@ != "variant"@,
        "enterpriseName"@ != "expiresAt"@,
        "enterpriseName"@ != "refreshExpiresAt"@,
        "enterpriseName"@ != "auth_raw"@,
        "enterpriseName"@ != "profile_raw"@,
        "enterpriseName"@ != "createdAt"@,
        "enterpriseId"@ != "access_token"@,
        "enterpriseId"@ != "refresh_token"@,
        "enterpriseId"@ != "token_type"@,
        "enterpriseId"@ != "domain"@,
        "enterpriseId"@ != "variant"@,
        "enterpriseId"@ != "expiresAt"@,
        "enterpriseId"@ != "refreshExpiresAt"@,
        "enterpriseId"@ != "auth_raw"@,
        "enterpriseId"@ != "profile_raw"@,
        "enterpriseId"@ != "createdAt"@,
        "access_token"@ != "refresh_token"@,
        "access_token"@ != "token_type"@,
        "access_token"@ != "domain"@,
        "access_token"@ != "variant"@,
        "access_token"@ != "expiresAt"@,
        "access_token"@ != "refreshExpiresAt"@,
        "access_token"@ != "auth_raw"@,
        "access_token"@ != "profile_raw"@,
        "access_token"@ != "createdAt"@,
        "refresh_token"@ != "token_type"@,
        "refresh_token"@ != "domain"@,
        "refresh_token"@ != "variant"@,
        "refresh_token"@ != "expiresAt"@,
        "refresh_token"@ != "refreshExpiresAt"@,
        "refresh_token"@ != "auth_raw"@,
        "refresh_token"@ != "profile_raw"@,
        "refresh_token"@ != "createdAt"@,
        "token_type"@ != "domain"@,
        "token_type"@ != "variant"@,
        "token_type"@ != "expiresAt"@,
        "token_type"@ != "refreshExpiresAt"@,
        "token_type"@ != "auth_raw"@,
        "token_type"@ != "profile_raw"@,
        "token_type"@ != "createdAt"@,
        "domain"@ != "variant"@,
        "domain"@ != "expiresAt"@,
        "domain"@ != "refreshExpiresAt"@,
        "domain"@ != "auth_raw"@,
        "domain"@ != "profile_raw"@,
        "domain"@ != "createdAt"@,
        "variant"@ != "expiresAt"@,
        "variant"@ != "refreshExpiresAt"@,
        "variant"@ != "auth_raw"@,
        "variant"@ != "profile_raw"@,
        "variant"@ != "createdAt"@,
        "expiresAt"@ != "refreshExpiresAt"@,
        "expiresAt"@ != "auth_raw"@,
        "expiresAt"@ != "profile_raw"@,
        "expiresAt"@ != "createdAt"@,
        "refreshExpiresAt"@ != "auth_raw"@,
        "refreshExpiresAt"@ != "profile_raw"@,
        "refreshExpiresAt"@ != "createdAt"@,
        "auth_raw"@ != "profile_raw"@,
        "auth_raw"@ != "createdAt"@,
        "profile_raw"@ != "createdAt"@,
{
    reveal_strlit("id");
    reveal_strlit("uid");
    reveal_strlit("nickname");
    reveal_strlit("email");
    reveal_strlit("enterpriseName");
    reveal_strlit("enterpriseId");
    reveal_strlit("access_token");
    reveal_strlit("refresh_token");
    reveal_strlit("token_type");
    reveal_strlit("domain");
    reveal_strlit("variant");
    reveal_strlit("expiresAt");
    reveal_strlit("refreshExpiresAt");
    reveal_strlit("auth_raw");
    reveal_strlit("profile_raw");
    reveal_strlit("createdAt");
    assert("id"@.len() == 2);
    assert("uid"@.len() == 3);
    assert("nickname"@.len() == 8);
    assert("email"@.len() == 5);
    assert("enterpriseName"@.len() == 14);
    assert("enterpriseId"@.len() == 12);
    assert("access_token"@.len() == 12);
    assert("refresh_token"@.len() == 13);
    assert("token_type"@.len() == 10);
    assert("domain"@.len() == 6);
    assert("variant"@.len() == 7);
    assert("expiresAt"@.len() == 9);
    assert("refreshExpiresAt"@.len() == 16);
    assert("auth_raw"@.len() == 8);
    assert("profile_raw"@.len() == 11);
    assert("createdAt"@.len() == 9);
    assert("nickname"@[0] != "auth_raw"@[0]);
    assert("enterpriseId"@[0] != "access_token"@[0]);
    assert("expiresAt"@[0] != "createdAt"@[0]);
}

proof fn answer_names()
    ensures
        "done"@ != "result"@,
        "done"@ != "error"@,
        "result"@ != "error"@,
{
    reveal_strlit("done");
    reveal_strlit("result");
    reveal_strlit("error");
    assert("done"@.len() == 4);
    assert("result"@.len() == 6);
    assert("error"@.len() == 5);
}

proof fn notice_names()
    ensures
        "loginId"@ != "verificationUri"@,
        "loginId"@ != "expiresIn"@,
        "verificationUri"@ != "expiresIn"@,
{
    reveal_strlit("loginId");
    reveal_strlit("verificationUri");
    reveal_strlit("expiresIn");
    assert("loginId"@.len() == 7);
    assert("verificationUri"@.len() == 15);
    assert("expiresIn"@.len() == 9);
}

/// The one group comes before the other, or neither comes first: it has more copies, or as
/// many and was active no later.
pub open spec fn fore(a: GroupV, b: GroupV) -> bool {
    a.dups.len() > b.dups.len() || (a.dups.len() == b.dups.len() && a.active <= b.active)
}

proof fn lining_up_keeps_order(s: Seq<GroupV>, x: GroupV)
    requires
        forall|i: int, j: int| 0 <= i <= j < s.len() ==> fore(#[trigger] s[i], #[trigger] s[j]),
    ensures
        dedup::lined_up(s, x).len() == s.len() + 1,
        forall|i: int, j: int|
            0 <= i <= j < dedup::lined_up(s, x).len() ==> fore(
                #[trigger] dedup::lined_up(s, x)[i],
                #[trigger] dedup::lined_up(s, x)[j],
            ),
        forall|y: GroupV| fore(x, y) && (s.len() > 0 ==> fore(s[s.len() - 1], y)) ==> #[trigger] fore(
            dedup::lined_up(s, x)[s.len() as int],
            y,
        ),
    decreases s.len(),
{
    if s.len() == 0 || !dedup::leads(x, s[s.len() - 1]) {
        let all = s.push(x);
        assert forall|i: int, j: int| 0 <= i <= j < all.len() implies fore(#[trigger] all[i], #[trigger] all[j]) by {
            if j == s.len() && i < s.len() {
                assert(fore(s[i], s[s.len() - 1]));
            }
        }
    } else {
        let last = s[s.len() - 1];
        let front = s.subrange(0, s.len() - 1);
        assert forall|i: int, j: int| 0 <= i <= j < front.len() implies fore(#[trigger] front[i], #[trigger] front[j]) by {
            assert(front[i] == s[i] && front[j] == s[j]);
        }
        lining_up_keeps_order(front, x);
        let p = dedup::lined_up(front, x);
        let all = dedup::lined_up(s, x);
        assert(all == p.push(last));
        if front.len() > 0 {
            assert(fore(s[front.len() - 1], s[s.len() - 1]));
            assert(front[front.len() - 1] == s[front.len() - 1]);
        }
        assert(fore(p[front.len() as int], last));
        assert forall|i: int, j: int| 0 <= i <= j < all.len() implies fore(#[trigger] all[i], #[trigger] all[j]) by {
            if j == p.len() && i < p.len() {
                assert(fore(p[i], p[p.len() - 1]));
            }
        }
    }
}

/// The groups with the most copies come first; of two with as many the one that was active
/// earlier.
pub proof fn the_largest_groups_come_first(s: Seq<SessionV>, n: int, i: int, j: int)
    ensures
        0 <= i < j < dedup::copied(s, n).len() ==> dedup::copied(s, n)[i].dups.len() > dedup::copied(s, n)[j].dups.len()
            || (dedup::copied(s, n)[i].dups.len() == dedup::copied(s, n)[j].dups.len() && dedup::copied(s, n)[i].active
            <= dedup::copied(s, n)[j].active),
{
    groups_are_ordered(s, n);
    if 0 <= i < j < dedup::copied(s, n).len() {
        assert(fore(dedup::copied(s, n)[i], dedup::copied(s, n)[j]));
    }
}

proof fn groups_are_ordered(s: Seq<SessionV>, n: int)
    ensures
        forall|i: int, j: int|
            0 <= i <= j < dedup::copied(s, n).len() ==> fore(
                #[trigger] dedup::copied(s, n)[i],
                #[trigger] dedup::copied(s, n)[j],
            ),
    decreases n,
{
    if 0 < n <= s.len() {
        groups_are_ordered(s, n - 1);
        lining_up_keeps_order(dedup::copied(s, n - 1), dedup::group_of(s, n - 1));
    }
}

proof fn filing_adds(s: Seq<Seq<char>>, x: Seq<char>)
    ensures
        dedup::filed(s, x).to_multiset() == s.to_multiset().insert(x),
        dedup::filed(s, x).len() == s.len() + 1,
    decreases s.len(),
{
    broadcast use vstd::seq_lib::group_to_multiset_ensures;

    if !(s.len() == 0 || !text::less(x, s[s.len() - 1])) {
        let front = s.subrange(0, s.len() - 1);
        filing_adds(front, x);
        assert(s =~= front.push(s[s.len() - 1]));
    }
}

/// The identifiers of a group are those of all sessions that were last active at the same
/// time, with the same title and in the same directory, and of no other session.
pub proof fn groups_hold_the_same_sessions(s: Seq<SessionV>, x: SessionV, n: int)
    requires
        0 <= n <= s.len(),
    ensures
        dedup::ids_of(s, x, n).to_multiset() == s.take(n).filter(
            |y: SessionV| y.active == x.active && y.title == x.title && y.cwd == x.cwd,
        ).map_values(|y: SessionV| y.id).to_multiset(),
    decreases n,
{
    broadcast use vstd::seq_lib::group_to_multiset_ensures;

    let keep = |y: SessionV| y.active == x.active && y.title == x.title && y.cwd == x.cwd;
    let of = |y: SessionV| y.id;
    reveal(Seq::filter);
    if n > 0 {
        groups_hold_the_same_sessions(s, x, n - 1);
        assert(s.take(n).drop_last() =~= s.take(n - 1));
        let last = s[n - 1];
        if keep(last) {
            filing_adds(dedup::ids_of(s, x, n - 1), last.id);
            assert(s.take(n - 1).filter(keep).push(last).map_values(of) =~= s.take(n - 1).filter(keep).map_values(
                of,
            ).push(of(last)));
        }
    } else {
        assert(s.take(0).filter(keep).map_values(of) =~= Seq::<Seq<char>>::empty());
        assert(dedup::ids_of(s, x, 0) =~= Seq::<Seq<char>>::empty());
    }
}

proof fn lined_up_holds(s: Seq<GroupV>, x: GroupV, y: GroupV)
    ensures
        dedup::lined_up(s, x).contains(y) == (s.contains(y) || x == y),
    decreases s.len(),
{
    if s.len() == 0 || !dedup::leads(x, s[s.len() - 1]) {
        vstd::seq_lib::lemma_seq_contains_after_push(s, x, y);
    } else {
        let front = s.subrange(0, s.len() - 1);
        lined_up_holds(front, x, y);
        assert(s =~= front.push(s[s.len() - 1]));
        vstd::seq_lib::lemma_seq_contains_after_push(front, s[s.len() - 1], y);
        vstd::seq_lib::lemma_seq_contains_after_push(dedup::lined_up(front, x), s[s.len() - 1], y);
    }
}

proof fn groups_are(s: Seq<SessionV>, n: int, g: GroupV)
    ensures
        dedup::copied(s, n).contains(g) ==> exists|k: int|
            0 <= k < n && n <= s.len() && g == #[trigger] dedup::group_of(s, k) && dedup::ids_of(
                s,
                s[k],
                s.len() as int,
            ).len() > 1,
    decreases n,
{
    if 0 < n <= s.len() {
        groups_are(s, n - 1, g);
        if dedup::is_first(s, n - 1) && dedup::ids_of(s, s[n - 1], s.len() as int).len() > 1 {
            lined_up_holds(dedup::copied(s, n - 1), dedup::group_of(s, n - 1), g);
        }
    }
}

/// A group names the time, title and directory that its sessions share, keeps one of them
/// and has all others as copies.
pub proof fn groups_keep_one_session(s: Seq<SessionV>, i: int)
    requires
        0 <= i < dedup::copied(s, s.len() as int).len(),
    ensures
        ({
            let g = dedup::copied(s, s.len() as int)[i];
            &&& g.dups.len() > 0
            &&& seq![g.keep] + g.dups == dedup::ids_of(
                s,
                SessionV { id: g.keep, active: g.active, title: g.title, cwd: g.cwd },
                s.len() as int,
            )
        }),
{
    let g = dedup::copied(s, s.len() as int)[i];
    assert(dedup::copied(s, s.len() as int).contains(g));
    groups_are(s, s.len() as int, g);
    let k = choose|k: int|
        0 <= k < s.len() && g == #[trigger] dedup::group_of(s, k) && dedup::ids_of(s, s[k], s.len() as int).len() > 1;
    let ids = dedup::ids_of(s, s[k], s.len() as int);
    let x = SessionV { id: g.keep, active: g.active, title: g.title, cwd: g.cwd };
    same_ids(s, s[k], x, s.len() as int);
    assert(seq![g.keep] + g.dups =~= ids);
}

proof fn same_ids(s: Seq<SessionV>, x: SessionV, y: SessionV, n: int)
    requires
        x.active == y.active && x.title == y.title && x.cwd == y.cwd,
    ensures
        dedup::ids_of(s, x, n) == dedup::ids_of(s, y, n),
    decreases n,
{
    if 0 < n <= s.len() {
        same_ids(s, x, y, n - 1);
    }
}

/// What is told of a group: what its sessions share, which one is kept, which are its
/// copies, and how many sessions there are with the kept one.
pub proof fn groups_are_told(g: GroupV)
    ensures
        ({
            let e = dedup::group_entry(g);
            &&& e.get("lastActivityAt"@) == Some(JsonV::Int(g.active))
            &&& g.title matches Some(t) ==> e.get("title"@) == Some(JsonV::Str(t))
            &&& g.cwd matches Some(d) ==> e.get("cwd"@) == Some(JsonV::Str(d))
            &&& g.title is None ==> e.get("title"@) == Some(JsonV::Str(Seq::empty()))
            &&& e.get("count"@) == Some(JsonV::Int((g.dups.len() + 1) as int))
            &&& e.get("keepId"@) == Some(JsonV::Str(g.keep))
            &&& e.get("dupIds"@) matches Some(JsonV::Arr(l)) && l.len() == g.dups.len() && forall|i: int|
                0 <= i < l.len() ==> #[trigger] l[i] == JsonV::Str(g.dups[i])
        }),
{
    group_names();
}

/// As many sessions are told to go as the groups have copies.
pub proof fn copies_are_counted(g: Seq<GroupV>, n: int)
    requires
        0 < n <= g.len(),
        dedup::to_delete(g, n - 1) + g[n - 1].dups.len() <= usize::MAX,
    ensures
        dedup::to_delete(g, n) == dedup::to_delete(g, n - 1) + g[n - 1].dups.len(),
        dedup::to_delete(g, 0) == 0,
{
}

/// A login that is started has ten minutes, and the state that the service gave it.
pub proof fn logins_have_ten_minutes(v: WbVariant, resp: JsonV, data: JsonV, state: Seq<char>, id: Seq<char>, now: i64)
    requires
        resp.get("data"@) == Some(data),
        data.get("state"@) == Some(JsonV::Str(state)),
        now + 600 <= i64::MAX,
    ensures
        ({
            let l = oauth::new_login(v, resp, now as int);
            &&& l.variant == v && l.state == state && l.expires_at == now + 600 && !l.done
            &&& l.result is None && l.error is None
        }),
        oauth::start_notice(id, v, resp).get("loginId"@) == Some(JsonV::Str(id)),
        oauth::start_notice(id, v, resp).get("expiresIn"@) == Some(JsonV::Int(600)),
{
    notice_names();
}

/// The address to log in at is the one that the service gives, under the first of the
/// names that it goes by.
pub proof fn login_addresses_are_given(v: WbVariant, resp: JsonV, data: JsonV, id: Seq<char>, a: Seq<char>)
    requires
        resp.get("data"@) == Some(data),
    ensures
        data.get("authUrl"@) == Some(JsonV::Str(a)) ==> oauth::scan_address(v, resp) == a,
        data.get("authUrl"@) is None && data.get("auth_url"@) == Some(JsonV::Str(a)) ==> oauth::scan_address(v, resp)
            == a,
        data.get("authUrl"@) is None && data.get("auth_url"@) is None && data.get("url"@) == Some(JsonV::Str(a))
            ==> oauth::scan_address(v, resp) == a,
        data.get("authUrl"@) is None && data.get("auth_url"@) is None && data.get("url"@) is None && data.get("state"@)
            == Some(JsonV::Str(a)) ==> oauth::scan_address(v, resp) == v.endpoint() + "/login?state="@ + a,
        oauth::start_notice(id, v, resp).get("verificationUri"@) == Some(JsonV::Str(oauth::scan_address(v, resp))),
{
    notice_names();
}

/// A login that is asked after: one that is not known fails; one that is done answers what
/// it came to; one whose time is over fails and is done; any other asks for its token.
pub proof fn polls_go_by_the_login(m: Map<Seq<char>, LoginV>, id: Seq<char>, now: int)
    ensures
        ({
            let (after, start) = oauth::poll_begun(m, id, now);
            &&& !m.contains_key(id) ==> after == m && (start matches PollStartV::Answer(a) && a.get("done"@) == Some(
                JsonV::Bool(true),
            ) && (a.get("error"@) matches Some(JsonV::Str(_))))
            &&& m.contains_key(id) && m[id].done ==> after == m && (start matches PollStartV::Answer(a) && a.get(
                "done"@,
            ) == Some(JsonV::Bool(true)) && (m[id].result matches Some(r) ==> a.get("result"@) == Some(r)) && (
            m[id].error matches Some(e) ==> a.get("error"@) == Some(JsonV::Str(e))))
            &&& m.contains_key(id) && !m[id].done && now > m[id].expires_at ==> after.contains_key(id)
                && after[id].done && after[id].error is Some && start is Answer
            &&& m.contains_key(id) && !m[id].done && now <= m[id].expires_at ==> after == m && start == (
            PollStartV::AskToken { variant: m[id].variant, state: m[id].state })
        }),
{
    answer_names();
}

/// A token is granted where the answer went well and brings one.
pub proof fn tokens_are_granted(resp: JsonV, data: JsonV, code: int, t: Seq<char>)
    requires
        resp.get("code"@) == Some(JsonV::Int(code)),
        i64::MIN <= code <= i64::MAX,
        resp.get("data"@) == Some(data),
    ensures
        data.get("accessToken"@) == Some(JsonV::Str(t)) ==> oauth::token_in(resp) == t && oauth::token_granted(resp) == (
        (code == 0 || code == 200) && t.len() > 0),
        data.get("accessToken"@) is None && data.get("access_token"@) == Some(JsonV::Str(t)) ==> oauth::token_in(resp)
            == t,
        data.get("accessToken"@) is None && data.get("access_token"@) is None ==> !oauth::token_granted(resp),
{
}

/// An account of the other edition is refused.
pub proof fn other_editions_are_refused(v: WbVariant, domain: Seq<char>)
    ensures
        domain.len() == 0 ==> oauth::mismatch(v, domain) is None,
        domain.len() > 0 ==> (oauth::mismatch(v, domain) is Some) == (variant::variant_of_domain(domain) != v),
{
}

/// What a login came to is the account that the service told of: its tokens, until when
/// they are good, its edition and domain, and the profile that belongs to it.
pub proof fn logins_come_to_accounts(
    v: WbVariant,
    resp: JsonV,
    told: JsonV,
    data: JsonV,
    profile: JsonV,
    id: Seq<char>,
    now: i64,
    s: Seq<char>,
    t: int,
)
    requires
        resp.get("data"@) == Some(data),
        told.get("data"@) == Some(profile),
    ensures
        ({
            let a = oauth::login_account(v, resp, told, id, now as int);
            &&& a.get("id"@) == Some(JsonV::Str(id))
            &&& a.get("createdAt"@) == Some(JsonV::Int(now as int))
            &&& a.get("variant"@) == Some(JsonV::Str(v.name()))
            &&& profile.get("uid"@) == Some(JsonV::Str(s)) ==> a.get("uid"@) == Some(JsonV::Str(s))
            &&& profile.get("nickname"@) == Some(JsonV::Str(s)) ==> a.get("nickname"@) == Some(JsonV::Str(s))
            &&& profile.get("email"@) == Some(JsonV::Str(s)) && text::trim(s) == s && s.len() > 0 ==> a.get("email"@)
                == Some(JsonV::Str(s))
            &&& data.get("accessToken"@) == Some(JsonV::Str(s)) ==> a.get("access_token"@) == Some(JsonV::Str(s))
            &&& data.get("refreshToken"@) == Some(JsonV::Str(s)) ==> a.get("refresh_token"@) == Some(JsonV::Str(s))
            &&& data.get("refreshToken"@) is None && data.get("refresh_token"@) == Some(JsonV::Str(s)) ==> a.get(
                "refresh_token"@,
            ) == Some(JsonV::Str(s))
            &&& data.get("tokenType"@) == Some(JsonV::Str(s)) ==> a.get("token_type"@) == Some(JsonV::Str(s))
            &&& data.get("tokenType"@) is None && data.get("token_type"@) is None ==> a.get("token_type"@) == Some(
                JsonV::Str("Bearer"@),
            )
            &&& data.get("domain"@) == Some(JsonV::Str(s)) ==> a.get("domain"@) == Some(JsonV::Str(s))
            &&& profile.get("enterpriseName"@) == Some(JsonV::Str(s)) ==> a.get("enterpriseName"@) == Some(JsonV::Str(s))
            &&& profile.get("enterpriseId"@) == Some(JsonV::Str(s)) ==> a.get("enterpriseId"@) == Some(JsonV::Str(s))
            &&& a.get("auth_raw"@) == Some(data)
            &&& a.get("profile_raw"@) == Some(profile)
        }),
        ({
            let a = oauth::login_account(v, resp, told, id, now as int);
            &&& data.get("expiresAt"@) == Some(JsonV::Int(t)) && 10_000_000_000 <= t <= i64::MAX ==> a.get("expiresAt"@)
                == Some(JsonV::Int(t))
            &&& data.get("expiresAt"@) is None && data.get("expires_at"@) is None && data.get("expiresIn"@) == Some(
                JsonV::Int(t),
            ) && 0 <= t <= 1_000_000_000 && now + t * 1000 <= i64::MAX ==> a.get("expiresAt"@) == Some(
                JsonV::Int(now + t * 1000),
            )
            &&& data.get("refreshExpiresAt"@) == Some(JsonV::Int(t)) && 10_000_000_000 <= t <= i64::MAX ==> a.get(
                "refreshExpiresAt"@,
            ) == Some(JsonV::Int(t))
            &&& data.get("refreshExpiresAt"@) is None && data.get("refresh_expires_at"@) is None && data.get(
                "refreshExpiresIn"@,
            ) == Some(JsonV::Int(t)) && 0 <= t <= 1_000_000_000 && now + t * 1000 <= i64::MAX ==> a.get(
                "refreshExpiresAt"@,
            ) == Some(JsonV::Int(now + t * 1000))
        }),
{
    login_names();
}

proof fn told_names()
    ensures
        "ok"@ != "uid"@,
        "ok"@ != "deleted"@,
        "ok"@ != "groups"@,
        "ok"@ != "totalGroups"@,
        "ok"@ != "message"@,
        "ok"@ != "error"@,
        "uid"@ != "deleted"@,
        "uid"@ != "groups"@,
        "uid"@ != "totalGroups"@,
        "uid"@ != "message"@,
        "uid"@ != "error"@,
        "deleted"@ != "groups"@,
        "deleted"@ != "totalGroups"@,
        "deleted"@ != "message"@,
        "deleted"@ != "error"@,
        "groups"@ != "totalGroups"@,
        "groups"@ != "message"@,
        "groups"@ != "error"@,
        "totalGroups"@ != "message"@,
        "totalGroups"@ != "error"@,
        "message"@ != "error"@,
{
    reveal_strlit("ok");
    reveal_strlit("uid");
    reveal_strlit("deleted");
    reveal_strlit("groups");
    reveal_strlit("totalGroups");
    reveal_strlit("message");
    reveal_strlit("error");
    assert("ok"@.len() == 2);
    assert("uid"@.len() == 3);
    assert("deleted"@.len() == 7);
    assert("groups"@.len() == 6);
    assert("totalGroups"@.len() == 11);
    assert("message"@.len() == 7);
    assert("error"@.len() == 5);
    assert("deleted"@[0] != "message"@[0]);
}

/// Where no session is doubled, it is told that none was cleared, and of whom.
pub proof fn nothing_to_clear_is_told(uid: Seq<char>)
    ensures
        ({
            let r = dedup::nothing_found(uid);
            &&& r.get("ok"@) == Some(JsonV::Bool(true))
            &&& r.get("uid"@) == Some(JsonV::Str(uid))
            &&& r.get("deleted"@) == Some(JsonV::Int(0))
            &&& r.get("totalGroups"@) == Some(JsonV::Int(0))
            &&& r.get("groups"@) == Some(JsonV::Arr(Seq::empty()))
        }),
        dedup::refusal(uid).get("ok"@) == Some(JsonV::Bool(false)),
        dedup::refusal(uid).get("error"@) == Some(JsonV::Str(uid)),
{
    told_names();
}

/// As many marks are set into a statement as it names identifiers, with commas between them.
pub proof fn statements_have_a_mark_for_each(n: int)
    requires
        n >= 1,
    ensures
        dedup::marks(n).len() == 2 * n - 1,
        dedup::marks(n)[0] == '?',
        n > 1 ==> dedup::marks(n) == dedup::marks(n - 1) + seq![',', '?'],
    decreases n,
{
    reveal_strlit("?");
    reveal_strlit(",?");
    assert("?"@.len() == 1 && "?"@[0] == '?');
    assert(",?"@ =~= seq![',', '?']);
    if n > 1 {
        statements_have_a_mark_for_each(n - 1);
    }
}

} // verus!
