//! What texts, paths, readings of clocks and values promise.
use vstd::prelude::*;
use crate::clock;
use crate::config;
use crate::json;
use crate::json::JsonV;
use crate::paths;
use crate::text;
use crate::variant;
use crate::variant::WbVariant;

verus! {

proof fn start_is_cut(s: Seq<char>) -> (a: int)
    ensures
        0 <= a <= s.len(),
        text::trim_start(s) == s.subrange(a, s.len() as int),
        forall|i: int| 0 <= i < a ==> text::white(#[trigger] s[i]),
        a < s.len() ==> !text::white(s[a]),
    decreases s.len(),
{
    if s.len() > 0 && text::white(s[0]) {
        let rest = s.subrange(1, s.len() as int);
        let a = start_is_cut(rest);
        assert forall|i: int| 0 <= i < a + 1 implies text::white(#[trigger] s[i]) by {
            if i > 0 {
                assert(rest[i - 1] == s[i]);
            }
        }
        assert(rest.subrange(a, rest.len() as int) =~= s.subrange(a + 1, s.len() as int));
        if a < rest.len() {
            assert(rest[a] == s[a + 1]);
        }
        a + 1
    } else {
        assert(s.subrange(0, s.len() as int) =~= s);
        0
    }
}

proof fn end_is_cut(s: Seq<char>) -> (b: int)
    ensures
        0 <= b <= s.len(),
        text::trim_end(s) == s.subrange(0, b),
        forall|i: int| b <= i < s.len() ==> text::white(#[trigger] s[i]),
        b > 0 ==> !text::white(s[b - 1]),
    decreases s.len(),
{
    if s.len() > 0 && text::white(s[s.len() - 1]) {
        let rest = s.subrange(0, s.len() - 1);
        let b = end_is_cut(rest);
        assert(rest.subrange(0, b) =~= s.subrange(0, b));
        assert forall|i: int| b <= i < s.len() implies text::white(#[trigger] s[i]) by {
            if i < s.len() - 1 {
                assert(rest[i] == s[i]);
            }
        }
        if b > 0 {
            assert(rest[b - 1] == s[b - 1]);
        }
        b
    } else {
        assert(s.subrange(0, s.len() as int) =~= s);
        s.len() as int
    }
}

/// Trimming takes white space off both ends and nothing else: what is left is a part of the
/// text that neither begins nor ends with any.
pub proof fn trimming_takes_the_ends(s: Seq<char>) -> (r: (int, int))
    ensures
        0 <= r.0 <= r.1 <= s.len(),
        text::trim(s) == s.subrange(r.0, r.1),
        forall|i: int| 0 <= i < r.0 ==> text::white(#[trigger] s[i]),
        forall|i: int| r.1 <= i < s.len() ==> text::white(#[trigger] s[i]),
        r.0 < r.1 ==> !text::white(s[r.0]) && !text::white(s[r.1 - 1]),
{
    let a = start_is_cut(s);
    let rest = s.subrange(a, s.len() as int);
    let b = end_is_cut(rest);
    assert(rest.subrange(0, b) =~= s.subrange(a, a + b));
    assert forall|i: int| a + b <= i < s.len() implies text::white(#[trigger] s[i]) by {
        assert(rest[i - a] == s[i]);
    }
    if b > 0 {
        assert(rest[b - 1] == s[a + b - 1]);
    }
    (a, a + b)
}

proof fn decimals_are_digits(n: int)
    requires
        n >= 0,
    ensures
        text::decimal(n).len() > 0,
        text::all_digits(text::decimal(n)),
        text::digits_value(text::decimal(n)) == n,
    decreases n,
{
    if n < 10 {
        let s = text::decimal(n);
        assert(s.len() == 1);
        assert(s[0] as int == '0' as int + n);
        assert(s.subrange(0, 0) =~= Seq::<char>::empty());
        assert(text::digits_value(s.subrange(0, 0)) == 0);
    } else {
        decimals_are_digits(n / 10);
        let front = text::decimal(n / 10);
        let s = text::decimal(n);
        let last = ('0' as int + n % 10) as char;
        assert(s == front.push(last));
        assert(s.subrange(0, s.len() - 1) =~= front);
        assert(last as int == '0' as int + n % 10);
    }
}

/// A number in writing is read back as that number.
pub proof fn written_numbers_are_read_back(n: int)
    ensures
        i64::MIN <= n <= i64::MAX ==> text::i64_of_text(text::int_text(n)) == Some(n),
        0 <= n <= u64::MAX ==> text::u64_of_text(text::int_text(n)) == Some(n),
{
    if n < 0 {
        decimals_are_digits(-n);
        let s = text::int_text(n);
        assert(s[0] == '-');
        assert(s.subrange(1, s.len() as int) =~= text::decimal(-n));
    } else {
        decimals_are_digits(n);
        let s = text::int_text(n);
        assert(text::digit(s[0]));
    }
}

/// Lower case turns the letters from A to Z into those from a to z, and nothing else.
pub proof fn lower_case_turns_letters(s: Seq<char>, i: int)
    requires
        0 <= i < s.len(),
    ensures
        text::lower(s).len() == s.len(),
        'A' <= s[i] <= 'Z' ==> text::lower(s)[i] as int == s[i] as int + 32,
        !('A' <= s[i] <= 'Z') ==> text::lower(s)[i] == s[i],
{
}

/// The first line of a text ends at its first line break; a carriage return before that
/// does not belong to it.
pub proof fn lines_end_at_line_breaks(s: Seq<char>, t: Seq<char>)
    requires
        forall|i: int| 0 <= i < s.len() ==> #[trigger] s[i] != '\n',
    ensures
        s.len() > 0 ==> text::lines(s) == seq![s],
        s.len() == 0 || s[s.len() - 1] != '\r' ==> text::lines(s.push('\n') + t) == seq![s] + text::lines(t),
        text::lines(s.push('\r').push('\n') + t) == seq![s] + text::lines(t),
{
    let nl = |x: char| x == '\n';
    if s.len() > 0 {
        text::until_unique(s, nl, s.len() as int);
    }
    let a = s.push('\n') + t;
    assert(a[s.len() as int] == '\n');
    assert forall|i: int| 0 <= i < s.len() implies !nl(#[trigger] a[i]) by {
        assert(a[i] == s[i]);
    }
    text::until_unique(a, nl, s.len() as int);
    assert(a.subrange(0, s.len() as int) =~= s);
    assert(a.subrange((s.len() + 1) as int, a.len() as int) =~= t);
    let r = s.push('\r');
    let b = r.push('\n') + t;
    assert(b[r.len() as int] == '\n');
    assert forall|i: int| 0 <= i < r.len() implies !nl(#[trigger] b[i]) by {
        assert(b[i] == r[i]);
    }
    text::until_unique(b, nl, r.len() as int);
    assert(b.subrange(0, r.len() as int) =~= r);
    assert(r.subrange(0, r.len() - 1) =~= s);
    assert(b.subrange((r.len() + 1) as int, b.len() as int) =~= t);
}

/// A time of day is read as the minutes since midnight, where it is one.
pub proof fn times_of_day_are_minutes(a: char, b: char, c: char, d: char)
    requires
        text::digit(a) && text::digit(b) && text::digit(c) && text::digit(d),
    ensures
        ({
            let h = (a as int - '0' as int) * 10 + (b as int - '0' as int);
            let m = (c as int - '0' as int) * 10 + (d as int - '0' as int);
            config::clock_minutes(seq![a, b, ':', c, d]) == (if h < 24 && m < 60 {
                Some(h * 60 + m)
            } else {
                None
            })
        }),
{
    let s = seq![a, b, ':', c, d];
    let colon = |x: char| x == ':';
    assert(!text::white(a) && !text::white(d));
    assert(text::trim_start(s) == s);
    assert(text::trim_end(s) == s);
    assert(s[0] == a && s[1] == b && s[2] == ':');
    text::until_unique(s, colon, 2);
    let x = s.subrange(0, 2);
    let y = s.subrange(3, 5);
    two_digits(x);
    two_digits(y);
}

proof fn two_digits(s: Seq<char>)
    requires
        s.len() == 2,
        text::digit(s[0]) && text::digit(s[1]),
    ensures
        text::unsigned_value(s) == Some((s[0] as int - '0' as int) * 10 + (s[1] as int - '0' as int)),
{
    reveal_with_fuel(text::digits_value, 4);
    let t = s.subrange(0, 1);
    assert(t.len() == 1 && t[0] == s[0]);
    assert(t.subrange(0, 0).len() == 0);
    assert(text::digits_value(t) == s[0] as int - '0' as int);
}

proof fn last_of_is(s: Seq<char>, c: char, k: int)
    requires
        0 <= k < s.len(),
        s[k] == c,
        forall|i: int| k < i < s.len() ==> #[trigger] s[i] != c,
    ensures
        paths::last_of(s, c) == k,
    decreases s.len(),
{
    if k < s.len() - 1 {
        let front = s.subrange(0, s.len() - 1);
        assert(s[s.len() - 1] != c);
        assert forall|i: int| k < i < front.len() implies #[trigger] front[i] != c by {
            assert(front[i] == s[i]);
        }
        last_of_is(front, c, k);
    }
}

/// A path is taken apart as it was joined: the name is its last part, and what it was joined
/// to lies before it.
pub proof fn joined_paths_come_apart(base: Seq<char>, name: Seq<char>)
    requires
        base.len() > 0,
        base[base.len() - 1] != '/',
        name.len() > 0,
        forall|i: int| 0 <= i < name.len() ==> #[trigger] name[i] != '/',
    ensures
        paths::last_part(paths::joined(base, name)) == name,
        paths::parent(paths::joined(base, name)) == Some(base),
{
    reveal_strlit("/");
    let p = base + "/"@ + name;
    assert(name[0] != '/');
    assert("/"@.len() == 1);
    assert(p[base.len() as int] == '/');
    assert forall|i: int| base.len() < i < p.len() implies #[trigger] p[i] != '/' by {
        assert(p[i] == name[i - base.len() - 1]);
    }
    last_of_is(p, '/', base.len() as int);
    assert(p.subrange((base.len() + 1) as int, p.len() as int) =~= name);
    assert(p.subrange(0, base.len() as int) =~= base);
}

/// A name is taken apart at its last dot.
pub proof fn names_come_apart_at_the_last_dot(stem: Seq<char>, ending: Seq<char>)
    requires
        stem.len() > 0,
        forall|i: int| 0 <= i < ending.len() ==> #[trigger] ending[i] != '.',
    ensures
        paths::stem(stem.push('.') + ending) == stem,
        paths::extension(stem.push('.') + ending) == Some(ending),
{
    let s = stem.push('.') + ending;
    assert(s[stem.len() as int] == '.');
    assert forall|i: int| stem.len() < i < s.len() implies #[trigger] s[i] != '.' by {
        assert(s[i] == ending[i - stem.len() - 1]);
    }
    last_of_is(s, '.', stem.len() as int);
    assert(s.subrange(0, stem.len() as int) =~= stem);
    assert(s.subrange((stem.len() + 1) as int, s.len() as int) =~= ending);
}

proof fn last_sep_is(s: Seq<char>, windows: bool, k: int)
    requires
        0 <= k < s.len(),
        paths::is_sep(s[k], windows),
        forall|i: int| k < i < s.len() ==> !paths::is_sep(#[trigger] s[i], windows),
    ensures
        paths::last_sep(s, windows) == k,
    decreases s.len(),
{
    if k < s.len() - 1 {
        let front = s.subrange(0, s.len() - 1);
        assert(!paths::is_sep(s[s.len() - 1], windows));
        assert forall|i: int| k < i < front.len() implies !paths::is_sep(#[trigger] front[i], windows) by {
            assert(front[i] == s[i]);
        }
        last_sep_is(front, windows, k);
    }
}

/// The parts of a path are those of what it was joined to and the name; a separator at its
/// end makes no part.
pub proof fn paths_have_the_parts_they_were_joined_of(base: Seq<char>, name: Seq<char>, windows: bool, sep: char)
    requires
        name.len() > 0,
        forall|i: int| 0 <= i < name.len() ==> !paths::is_sep(#[trigger] name[i], windows),
        name != "."@,
        sep == '/' || (windows && sep == '\\'),
    ensures
        paths::parts(base.push(sep) + name, windows) == seq![name] + paths::parts(base, windows),
        paths::parts(base.push(sep), windows) == paths::parts(base, windows),
{
    let p = base.push(sep) + name;
    assert(p[base.len() as int] == sep);
    assert forall|i: int| base.len() < i < p.len() implies !paths::is_sep(#[trigger] p[i], windows) by {
        assert(p[i] == name[i - base.len() - 1]);
    }
    last_sep_is(p, windows, base.len() as int);
    assert(p.subrange((base.len() + 1) as int, p.len() as int) =~= name);
    assert(p.subrange(0, base.len() as int) =~= base);
    let q = base.push(sep);
    last_sep_is(q, windows, base.len() as int);
    assert(q.subrange((base.len() + 1) as int, q.len() as int).len() == 0);
    assert(q.subrange(0, base.len() as int) =~= base);
}

/// A place is listed once: a path that leads to a listed place is not listed again.
pub proof fn places_are_listed_once(list: Seq<Seq<char>>, path: Seq<char>, windows: bool)
    ensures
        paths::listing(paths::listing(list, path, windows), path, windows) == paths::listing(list, path, windows),
        !(exists|i: int| 0 <= i < list.len() && paths::same_place(#[trigger] list[i], path, windows)) ==> paths::listing(
            list,
            path,
            windows,
        ) == list.push(path),
{
    let once = paths::listing(list, path, windows);
    if !(exists|i: int| 0 <= i < list.len() && paths::same_place(#[trigger] list[i], path, windows)) {
        assert(paths::same_place(once[list.len() as int], path, windows));
    }
}

/// A reading of a clock that is ahead of universal time by so many seconds was that much
/// earlier by universal time.
pub proof fn clocks_ahead_read_later(ms: i64, offset: int)
    requires
        -86_400 < offset < 86_400,
        clock::FIRST_MS <= ms <= clock::LAST_MS,
        clock::FIRST_MS <= ms - offset * 1000 <= clock::LAST_MS,
    ensures
        clock::zoned(clock::Wall { ms, leap: false }, offset) == Some(ms - offset * 1000),
        clock::zoned(clock::Wall { ms, leap: true }, offset) == Some(ms + 1000 - offset * 1000),
{
}

/// A member that is put into an object is found in it, and no other changes; one that is
/// taken out is gone.
pub proof fn members_are_found_where_they_were_put(v: JsonV, key: Seq<char>, x: JsonV, other: Seq<char>)
    requires
        v is Obj,
    ensures
        v.put(key, x) is Obj,
        v.put(key, x).get(key) == Some(x),
        other != key ==> v.put(key, x).get(other) == v.get(other),
        v.without(key).get(key) is None,
        other != key ==> v.without(key).get(other) == v.get(other),
        JsonV::empty().get(key) is None,
{
}

/// Laying one object over another gives the members of both, and of a member that both have
/// the one on top.
pub proof fn the_upper_members_count(v: JsonV, top: JsonV, key: Seq<char>)
    requires
        v is Obj,
        top is Obj,
    ensures
        top.get(key) is Some ==> v.overlay(top).get(key) == top.get(key),
        top.get(key) is None ==> v.overlay(top).get(key) == v.get(key),
        top.get(key) is Some ==> v.take(top, key).get(key) == top.get(key),
        top.get(key) is None ==> v.take(top, key) == v,
{
}

/// The last of a list are kept in their order.
pub proof fn the_last_are_kept(s: Seq<JsonV>, n: int, i: int)
    requires
        0 <= n,
    ensures
        s.len() <= n ==> json::last_n(s, n) == s,
        s.len() > n ==> json::last_n(s, n).len() == n,
        s.len() > n && 0 <= i < n ==> json::last_n(s, n)[i] == s[s.len() - n + i],
{
}

/// The edition of a domain is the international one where the domain ends as its does,
/// whatever the case.
pub proof fn domains_tell_the_edition(d: Seq<char>)
    requires
        text::trim(d) == d,
    ensures
        (variant::variant_of_domain(d) == WbVariant::Ai) == (d.len() >= "workbuddy.ai"@.len() && text::lower(d).subrange(
            d.len() - "workbuddy.ai"@.len(),
            d.len() as int,
        ) == "workbuddy.ai"@),
{
}

/// The international edition is asked without the version first and then with it, the
/// domestic one as it is.
pub proof fn paths_are_tried_without_the_version(path: Seq<char>)
    requires
        !text::starts_with(path, "/v2"@),
    ensures
        WbVariant::Cn.candidates(path) == seq![path],
        WbVariant::Ai.candidates(path) == seq![path, "/v2"@ + path],
        WbVariant::Ai.candidates("/v2"@ + path) == seq![path, "/v2"@ + path],
{
    let p = "/v2"@ + path;
    assert(p.subrange(0, "/v2"@.len() as int) =~= "/v2"@);
    assert(text::starts_with(p, "/v2"@));
    assert(p.subrange("/v2"@.len() as int, p.len() as int) =~= path);
}

} // verus!
