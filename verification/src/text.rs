//! Text as sequences of characters: trimming, searching, splitting, numbers.
use vstd::prelude::*;
use vstd::slice::slice_subrange;

verus! {

/// Unicode white space: the code points that `char::is_whitespace` accepts.
pub open spec fn white(c: char) -> bool {
    let n = c as u32;
    ||| 9 <= n <= 13
    ||| n == 0x20 || n == 0x85 || n == 0xa0 || n == 0x1680
    ||| 0x2000 <= n <= 0x200a
    ||| n == 0x2028 || n == 0x2029 || n == 0x202f || n == 0x205f || n == 0x3000
}

pub fn is_white(c: char) -> (b: bool)
    ensures
        b == white(c),
{
    let n: u32 = c as u32;
    (9 <= n && n <= 13) || n == 0x20 || n == 0x85 || n == 0xa0 || n == 0x1680
        || (0x2000 <= n && n <= 0x200a) || n == 0x2028 || n == 0x2029 || n == 0x202f
        || n == 0x205f || n == 0x3000
}

/// `s` without its leading white space.
pub open spec fn trim_start(s: Seq<char>) -> Seq<char>
    decreases s.len(),
{
    if s.len() > 0 && white(s[0]) {
        trim_start(s.subrange(1, s.len() as int))
    } else {
        s
    }
}

/// `s` without its trailing white space.
pub open spec fn trim_end(s: Seq<char>) -> Seq<char>
    decreases s.len(),
{
    if s.len() > 0 && white(s[s.len() - 1]) {
        trim_end(s.subrange(0, s.len() - 1))
    } else {
        s
    }
}

/// `s` without white space at either end.
pub open spec fn trim(s: Seq<char>) -> Seq<char> {
    trim_end(trim_start(s))
}

proof fn trim_start_first(s: Seq<char>)
    ensures
        trim_start(s).len() <= s.len(),
        trim_start(s).len() > 0 ==> !white(trim_start(s)[0]),
        trim_start(s).len() > 0 ==> trim_start(s)[trim_start(s).len() - 1] == s[s.len() - 1],
    decreases s.len(),
{
    if s.len() > 0 && white(s[0]) {
        trim_start_first(s.subrange(1, s.len() as int));
    }
}

proof fn trim_end_last(s: Seq<char>)
    ensures
        trim_end(s).len() <= s.len(),
        trim_end(s).len() > 0 ==> !white(trim_end(s)[trim_end(s).len() - 1]),
        trim_end(s).len() > 0 ==> trim_end(s)[0] == s[0],
    decreases s.len(),
{
    if s.len() > 0 && white(s[s.len() - 1]) {
        trim_end_last(s.subrange(0, s.len() - 1));
    }
}

/// What is trimmed stays as it is when trimmed again.
pub proof fn trim_settles(s: Seq<char>)
    ensures
        trim(trim(s)) == trim(s),
{
    trim_start_first(s);
    trim_end_last(s);
    trim_start_first(trim_end(s));
    trim_end_last(trim_start(s));
}

/// The characters of `s`, in order.
pub fn chars_of(s: &str) -> (v: Vec<char>)
    ensures
        v@ == s@,
{
    let mut v: Vec<char> = Vec::new();
    for c in it: s.chars()
        invariant
            v@ == it.seq().take(it.index() as int),
            it.seq() == s@,
    {
        v.push(c);
    }
    assert(v@ =~= s@);
    v
}

/// `String::push`: one character is added at the end.
#[verifier::external_body]
fn push_char(s: &mut String, c: char)
    ensures
        final(s)@ == old(s)@.push(c),
{
    s.push(c);
}

/// The string made of these characters.
pub fn text_of(chars: &[char]) -> (s: String)
    ensures
        s@ == chars@,
{
    let mut s: String = String::new();
    let mut i: usize = 0;
    while i < chars.len()
        invariant
            i <= chars@.len(),
            s@ == chars@.take(i as int),
        decreases chars@.len() - i,
    {
        push_char(&mut s, chars[i]);
        i += 1;
        assert(s@ =~= chars@.take(i as int));
    }
    assert(s@ =~= chars@);
    s
}

pub fn trim_start_slice(s: &[char]) -> (r: &[char])
    ensures
        r@ == trim_start(s@),
{
    let mut i: usize = 0;
    assert(s@.subrange(0, s@.len() as int) =~= s@);
    while i < s.len() && is_white(s[i])
        invariant
            i <= s@.len(),
            trim_start(s@) == trim_start(s@.subrange(i as int, s@.len() as int)),
        decreases s@.len() - i,
    {
        assert(s@.subrange(i as int, s@.len() as int).subrange(1, s@.len() - i)
            =~= s@.subrange(i + 1, s@.len() as int));
        i += 1;
    }
    slice_subrange(s, i, s.len())
}

pub fn trim_end_slice(s: &[char]) -> (r: &[char])
    ensures
        r@ == trim_end(s@),
{
    let mut i: usize = s.len();
    assert(s@.subrange(0, s@.len() as int) =~= s@);
    while i > 0 && is_white(s[i - 1])
        invariant
            i <= s@.len(),
            trim_end(s@) == trim_end(s@.subrange(0, i as int)),
        decreases i,
    {
        assert(s@.subrange(0, i as int).subrange(0, i - 1) =~= s@.subrange(0, i - 1));
        i -= 1;
    }
    slice_subrange(s, 0, i)
}

pub fn trim_slice(s: &[char]) -> (r: &[char])
    ensures
        r@ == trim(s@),
{
    trim_end_slice(trim_start_slice(s))
}

/// `str::trim`.
pub fn trimmed(s: &str) -> (r: String)
    ensures
        r@ == trim(s@),
{
    let chars: Vec<char> = chars_of(s);
    text_of(trim_slice(chars.as_slice()))
}

/// `n` stands in `h` at position `i`.
pub open spec fn occurs(h: Seq<char>, n: Seq<char>, i: int) -> bool {
    0 <= i && i + n.len() <= h.len() && h.subrange(i, i + n.len()) == n
}

/// The first position at or after `from` where `n` stands in `h`.
pub open spec fn find_from(h: Seq<char>, n: Seq<char>, from: int) -> Option<int>
    decreases h.len() + 1 - from,
{
    if from < 0 || from + n.len() > h.len() {
        None
    } else if occurs(h, n, from) {
        Some(from)
    } else {
        find_from(h, n, from + 1)
    }
}

/// The first position where `n` stands in `h` (`str::find`, counted in characters).
pub open spec fn find(h: Seq<char>, n: Seq<char>) -> Option<int> {
    find_from(h, n, 0)
}

/// `n` stands somewhere in `h` (`str::contains`).
pub open spec fn has(h: Seq<char>, n: Seq<char>) -> bool {
    exists|i: int| occurs(h, n, i)
}

/// `find` gives the first place where the needle occurs, and nothing only when it occurs nowhere.
pub proof fn find_is_first(h: Seq<char>, n: Seq<char>, from: int)
    requires
        0 <= from,
    ensures
        match find_from(h, n, from) {
            Some(i) => from <= i && occurs(h, n, i) && forall|j: int| from <= j < i ==> !occurs(h, n, j),
            None => forall|j: int| from <= j ==> !occurs(h, n, j),
        },
    decreases h.len() + 1 - from,
{
    if from + n.len() > h.len() {
    } else if occurs(h, n, from) {
    } else {
        find_is_first(h, n, from + 1);
    }
}

/// Searching succeeds exactly on the texts that contain the needle.
pub proof fn find_iff_has(h: Seq<char>, n: Seq<char>)
    ensures
        find(h, n) is Some <==> has(h, n),
{
    find_is_first(h, n, 0);
}

/// Whether `n` stands in `h` at position `i`.
pub fn occurs_at(h: &[char], n: &[char], i: usize) -> (b: bool)
    ensures
        b == occurs(h@, n@, i as int),
{
    if n.len() > h.len() || i > h.len() - n.len() {
        return false;
    }
    let mut k: usize = 0;
    while k < n.len()
        invariant
            k <= n@.len(),
            h@.len() <= usize::MAX,
            i + n@.len() <= h@.len(),
            forall|j: int| 0 <= j < k ==> h@[i + j] == n@[j],
        decreases n@.len() - k,
    {
        if h[i + k] != n[k] {
            assert(h@.subrange(i as int, i + n@.len())[k as int] != n@[k as int]);
            return false;
        }
        k += 1;
    }
    assert(h@.subrange(i as int, i + n@.len()) =~= n@);
    true
}

pub fn find_slice_from(h: &[char], n: &[char], from: usize) -> (r: Option<usize>)
    requires
        from <= h@.len(),
    ensures
        r.is_some() == find_from(h@, n@, from as int).is_some(),
        r matches Some(i) ==> find_from(h@, n@, from as int) == Some(i as int) && i + n@.len() <= h@.len() <= usize::MAX && from <= i
            && occurs(h@, n@, i as int),
{
    if n.len() > h.len() {
        return None;
    }
    if n.len() == 0 {
        assert(h@.subrange(from as int, from as int) =~= n@);
        return Some(from);
    }
    let mut i: usize = from;
    while i <= h.len() - n.len()
        invariant
            0 < n@.len() <= h@.len(),
            from <= i <= h@.len(),
            find_from(h@, n@, from as int) == find_from(h@, n@, i as int),
        decreases h@.len() - i,
    {
        if occurs_at(h, n, i) {
            return Some(i);
        }
        i += 1;
    }
    None
}

/// The first position of `n` in `h`.
pub fn find_slice(h: &[char], n: &[char]) -> (r: Option<usize>)
    ensures
        r.is_some() == find(h@, n@).is_some(),
        r matches Some(i) ==> find(h@, n@) == Some(i as int) && i + n@.len() <= h@.len() <= usize::MAX,
{
    find_slice_from(h, n, 0)
}

/// Whether the text contains `n`.
pub fn has_slice(h: &[char], n: &str) -> (b: bool)
    ensures
        b == has(h@, n@),
{
    let needle: Vec<char> = chars_of(n);
    proof {
        find_iff_has(h@, n@);
    }
    find_slice(h, needle.as_slice()).is_some()
}

/// `str::contains`.
pub fn contains_text(h: &str, n: &str) -> (b: bool)
    ensures
        b == has(h@, n@),
{
    let text: Vec<char> = chars_of(h);
    has_slice(text.as_slice(), n)
}

/// `p` stands at the head of `s`.
pub open spec fn starts_with(s: Seq<char>, p: Seq<char>) -> bool {
    occurs(s, p, 0)
}

/// `p` stands at the end of `s`.
pub open spec fn ends_with(s: Seq<char>, p: Seq<char>) -> bool {
    occurs(s, p, s.len() - p.len())
}

pub fn slice_starts_with(s: &[char], p: &str) -> (b: bool)
    ensures
        b == starts_with(s@, p@),
{
    let prefix: Vec<char> = chars_of(p);
    occurs_at(s, prefix.as_slice(), 0)
}

pub fn slice_ends_with(s: &[char], p: &str) -> (b: bool)
    ensures
        b == ends_with(s@, p@),
{
    let suffix: Vec<char> = chars_of(p);
    if suffix.len() > s.len() {
        return false;
    }
    occurs_at(s, suffix.as_slice(), s.len() - suffix.len())
}

/// `str::ends_with`.
pub fn text_ends_with(s: &str, p: &str) -> (b: bool)
    ensures
        b == ends_with(s@, p@),
{
    let chars: Vec<char> = chars_of(s);
    slice_ends_with(chars.as_slice(), p)
}

/// Equality of two texts.
pub fn same(a: &str, b: &str) -> (r: bool)
    ensures
        r == (a@ == b@),
{
    a.to_owned() == b.to_owned()
}

/// Whether the characters spell `t`.
pub fn slice_is(s: &[char], t: &str) -> (b: bool)
    ensures
        b == (s@ == t@),
{
    let chars: Vec<char> = chars_of(t);
    if s.len() != chars.len() {
        return false;
    }
    let r: bool = occurs_at(s, chars.as_slice(), 0);
    assert(s@.subrange(0, s@.len() as int) =~= s@);
    r
}

/// Position of the first `c` in `s`, or the length of `s`.
pub open spec fn until(s: Seq<char>, stop: spec_fn(char) -> bool) -> int
    decreases s.len(),
{
    if s.len() == 0 || stop(s[0]) {
        0
    } else {
        1 + until(s.subrange(1, s.len() as int), stop)
    }
}

/// `until` is the length of the longest prefix without a stop character.
pub proof fn until_is_prefix(s: Seq<char>, stop: spec_fn(char) -> bool)
    ensures
        0 <= until(s, stop) <= s.len(),
        forall|j: int| 0 <= j < until(s, stop) ==> !stop(s[j]),
        until(s, stop) < s.len() ==> stop(s[until(s, stop)]),
    decreases s.len(),
{
    if s.len() == 0 || stop(s[0]) {
    } else {
        let t = s.subrange(1, s.len() as int);
        until_is_prefix(t, stop);
        assert forall|j: int| 0 <= j < until(s, stop) implies !stop(s[j]) by {
            if j > 0 {
                assert(t[j - 1] == s[j]);
            }
        }
    }
}

/// The prefix of that length is the only one with these properties.
pub proof fn until_unique(s: Seq<char>, stop: spec_fn(char) -> bool, k: int)
    requires
        0 <= k <= s.len(),
        forall|j: int| 0 <= j < k ==> !stop(s[j]),
        k < s.len() ==> stop(s[k]),
    ensures
        until(s, stop) == k,
{
    until_is_prefix(s, stop);
    let u = until(s, stop);
    if u < k {
        assert(!stop(s[u]));
    } else if k < u {
        assert(!stop(s[k]));
    }
}

/// Position of the first `c`, or the length where there is none.
pub fn until_char(s: &[char], c: char) -> (r: usize)
    ensures
        r == until(s@, |x: char| x == c),
        r <= s@.len(),
        forall|j: int| 0 <= j < r ==> s@[j] != c,
        r < s@.len() ==> s@[r as int] == c,
{
    let mut i: usize = 0;
    while i < s.len() && s[i] != c
        invariant
            i <= s@.len(),
            forall|j: int| 0 <= j < i ==> s@[j] != c,
        decreases s@.len() - i,
    {
        i += 1;
    }
    proof {
        until_unique(s@, |x: char| x == c, i as int);
    }
    i
}

/// Position of the first white space, or the length where there is none.
pub fn until_white(s: &[char]) -> (r: usize)
    ensures
        r == until(s@, |x: char| white(x)),
        r <= s@.len(),
{
    let mut i: usize = 0;
    while i < s.len() && !is_white(s[i])
        invariant
            i <= s@.len(),
            forall|j: int| 0 <= j < i ==> !white(s@[j]),
        decreases s@.len() - i,
    {
        i += 1;
    }
    proof {
        until_unique(s@, |x: char| white(x), i as int);
    }
    i
}

/// Position of the first character out of `stops`, or the length where there is none.
pub fn until_any(s: &[char], stops: &[char]) -> (r: usize)
    ensures
        r == until(s@, |x: char| stops@.contains(x)),
        r <= s@.len(),
{
    let mut i: usize = 0;
    while i < s.len() && !char_in(s[i], stops)
        invariant
            i <= s@.len(),
            forall|j: int| 0 <= j < i ==> !stops@.contains(s@[j]),
        decreases s@.len() - i,
    {
        i += 1;
    }
    proof {
        until_unique(s@, |x: char| stops@.contains(x), i as int);
    }
    i
}

/// Whether `c` is one of `set`.
pub fn char_in(c: char, set: &[char]) -> (b: bool)
    ensures
        b == set@.contains(c),
{
    let mut i: usize = 0;
    while i < set.len()
        invariant
            i <= set@.len(),
            forall|j: int| 0 <= j < i ==> set@[j] != c,
        decreases set@.len() - i,
    {
        if set[i] == c {
            return true;
        }
        i += 1;
    }
    false
}

/// Number of bytes of `c` in UTF-8.
pub open spec fn utf8_width(c: char) -> int {
    let n = c as u32;
    if n < 0x80 {
        1
    } else if n < 0x800 {
        2
    } else if n < 0x10000 {
        3
    } else {
        4
    }
}

pub fn width(c: char) -> (w: usize)
    ensures
        w == utf8_width(c),
        1 <= w <= 4,
{
    let n: u32 = c as u32;
    if n < 0x80 {
        1
    } else if n < 0x800 {
        2
    } else if n < 0x10000 {
        3
    } else {
        4
    }
}

/// Number of bytes of `s` in UTF-8.
pub open spec fn byte_len(s: Seq<char>) -> int
    decreases s.len(),
{
    if s.len() == 0 {
        0
    } else {
        utf8_width(s[0]) + byte_len(s.subrange(1, s.len() as int))
    }
}

/// How many leading characters fit into `room` bytes.
pub open spec fn fit_front(s: Seq<char>, room: int) -> int
    decreases s.len(),
{
    if s.len() == 0 || utf8_width(s[0]) > room {
        0
    } else {
        1 + fit_front(s.subrange(1, s.len() as int), room - utf8_width(s[0]))
    }
}

/// How many trailing characters fit into `room` bytes.
pub open spec fn fit_back(s: Seq<char>, room: int) -> int
    decreases s.len(),
{
    if s.len() == 0 || utf8_width(s[s.len() - 1]) > room {
        0
    } else {
        1 + fit_back(s.subrange(0, s.len() - 1), room - utf8_width(s[s.len() - 1]))
    }
}

/// How many leading characters take exactly `n` bytes, if a character ends there.
pub open spec fn exact_front(s: Seq<char>, n: int) -> Option<int>
    decreases s.len(),
{
    if n == 0 {
        Some(0)
    } else if s.len() == 0 || utf8_width(s[0]) > n {
        None
    } else {
        match exact_front(s.subrange(1, s.len() as int), n - utf8_width(s[0])) {
            Some(k) => Some(k + 1),
            None => None,
        }
    }
}

/// How many leading characters fit into `room` bytes, and the room that is left.
fn fit_front_count(s: &[char], room: usize) -> (r: (usize, usize))
    ensures
        r.0 == fit_front(s@, room as int),
        r.0 <= s@.len(),
        r.1 <= room,
        r.1 == 0 ==> exact_front(s@, room as int) == Some(r.0 as int),
        r.1 > 0 ==> exact_front(s@, room as int) is None,
        byte_len(s@) <= room <==> r.0 == s@.len(),
{
    let mut i: usize = 0;
    let mut left: usize = room;
    assert(s@.subrange(0, s@.len() as int) =~= s@);
    proof {
        byte_len_positive(s@);
    }
    while i < s.len() && width(s[i]) <= left
        invariant
            i <= s@.len(),
            left <= room,
            fit_front(s@, room as int) == i + fit_front(s@.subrange(i as int, s@.len() as int), left as int),
            byte_len(s@) <= room <==> byte_len(s@.subrange(i as int, s@.len() as int)) <= left,
            exact_front(s@, room as int) == (match exact_front(
                s@.subrange(i as int, s@.len() as int),
                left as int,
            ) {
                Some(k) => Some(i + k),
                None => None,
            }),
        decreases s@.len() - i,
    {
        proof {
            let t = s@.subrange(i as int, s@.len() as int);
            assert(t.subrange(1, t.len() as int) =~= s@.subrange(i + 1, s@.len() as int));
            byte_len_positive(t.subrange(1, t.len() as int));
        }
        left -= width(s[i]);
        i += 1;
    }
    proof {
        let t = s@.subrange(i as int, s@.len() as int);
        byte_len_positive(t);
        if t.len() > 0 {
            byte_len_positive(t.subrange(1, t.len() as int));
        }
    }
    (i, left)
}

proof fn byte_len_positive(s: Seq<char>)
    ensures
        byte_len(s) >= s.len(),
    decreases s.len(),
{
    if s.len() > 0 {
        byte_len_positive(s.subrange(1, s.len() as int));
    }
}

/// Whether the text takes at most `room` bytes in UTF-8.
pub fn fits_bytes(s: &[char], room: usize) -> (b: bool)
    ensures
        b == (byte_len(s@) <= room),
{
    fit_front_count(s, room).0 == s.len()
}

/// The longest head of the text that takes at most `room` bytes.
pub fn head_bytes(s: &[char], room: usize) -> (r: &[char])
    ensures
        r@ == s@.subrange(0, fit_front(s@, room as int)),
        0 <= fit_front(s@, room as int) <= s@.len(),
{
    let k: usize = fit_front_count(s, room).0;
    slice_subrange(s, 0, k)
}

/// The longest tail of the text that takes at most `room` bytes.
pub fn tail_bytes(s: &[char], room: usize) -> (r: &[char])
    ensures
        r@ == s@.subrange(s@.len() - fit_back(s@, room as int), s@.len() as int),
        0 <= fit_back(s@, room as int) <= s@.len(),
{
    let mut i: usize = s.len();
    let mut left: usize = room;
    assert(s@.subrange(0, s@.len() as int) =~= s@);
    while i > 0 && width(s[i - 1]) <= left
        invariant
            i <= s@.len(),
            left <= room,
            fit_back(s@, room as int) == s@.len() - i + fit_back(s@.subrange(0, i as int), left as int),
        decreases i,
    {
        assert(s@.subrange(0, i as int).subrange(0, i - 1) =~= s@.subrange(0, i - 1));
        left -= width(s[i - 1]);
        i -= 1;
    }
    slice_subrange(s, i, s.len())
}

/// The head of the text of exactly `n` bytes, where a character ends there.
pub fn exact_bytes(s: &[char], n: usize) -> (r: Option<&[char]>)
    ensures
        match r {
            Some(t) => exact_front(s@, n as int) == Some(t@.len() as int) && t@ == s@.subrange(0, t@.len() as int),
            None => exact_front(s@, n as int) is None,
        },
{
    let (k, left) = fit_front_count(s, n);
    if left == 0 {
        Some(slice_subrange(s, 0, k))
    } else {
        None
    }
}

/// A line without the carriage return that ends it.
pub open spec fn chomp(s: Seq<char>) -> Seq<char> {
    if s.len() > 0 && s[s.len() - 1] == '\r' {
        s.subrange(0, s.len() - 1)
    } else {
        s
    }
}

/// The lines of a text (`str::lines`): cut at line feeds, a carriage return
/// before a line feed dropped, no empty line after the last line feed.
pub open spec fn lines(s: Seq<char>) -> Seq<Seq<char>>
    decreases s.len(),
    via lines_decreases
{
    let k = until(s, |x: char| x == '\n');
    if s.len() == 0 {
        Seq::empty()
    } else if k >= s.len() || k < 0 {
        seq![s]
    } else {
        seq![chomp(s.subrange(0, k))] + lines(s.subrange(k + 1, s.len() as int))
    }
}

#[via_fn]
proof fn lines_decreases(s: Seq<char>) {
    until_is_prefix(s, |x: char| x == '\n');
}

/// The range is that of a line of a text.
pub open spec fn is_range(s: Seq<char>, range: (usize, usize), line: Seq<char>) -> bool {
    range.0 <= range.1 <= s.len() && s.subrange(range.0 as int, range.1 as int) == line
}

/// The ranges are those of the lines of a text.
pub open spec fn ranges_of_lines(s: Seq<char>, ranges: Seq<(usize, usize)>) -> bool {
    &&& ranges.len() == lines(s).len()
    &&& forall|i: int| 0 <= i < ranges.len() ==> is_range(s, #[trigger] ranges[i], lines(s)[i])
}

/// Where each line begins and ends.
pub fn line_ranges(s: &[char]) -> (r: Vec<(usize, usize)>)
    ensures
        ranges_of_lines(s@, r@),
{
    let mut r: Vec<(usize, usize)> = Vec::new();
    let mut p: usize = 0;
    let ghost all = lines(s@);
    assert(s@.subrange(0, s@.len() as int) =~= s@);
    while p < s.len()
        invariant
            p <= s@.len(),
            r@.len() <= all.len(),
            lines(s@.subrange(p as int, s@.len() as int)) == all.subrange(r@.len() as int, all.len() as int),
            forall|i: int| 0 <= i < r@.len() ==> is_range(s@, #[trigger] r@[i], all[i]),
        decreases s@.len() - p,
    {
        let rest: &[char] = slice_subrange(s, p, s.len());
        let k: usize = until_char(rest, '\n');
        let ghost more = lines(rest@);
        let ghost held = r@;
        assert(more == all.subrange(r@.len() as int, all.len() as int));
        if k == rest.len() {
            assert(more =~= seq![rest@]);
            assert(all[held.len() as int] == more[0]);
            assert(s@.subrange(p as int, s@.len() as int) == all[held.len() as int]);
            r.push((p, s.len()));
            p = s.len();
            assert(lines(s@.subrange(p as int, s@.len() as int)) =~= all.subrange(r@.len() as int, all.len() as int));
        } else {
            let end: usize = if k > 0 && rest[k - 1] == '\r' {
                p + k - 1
            } else {
                p + k
            };
            let ghost tail = rest@.subrange(k + 1, rest@.len() as int);
            assert(more == seq![chomp(rest@.subrange(0, k as int))] + lines(tail));
            assert(more.len() == all.len() - r@.len());
            assert(s@.subrange(p as int, end as int) =~= more[0]);
            assert(all[held.len() as int] == more[0]);
            assert(lines(tail) =~= more.subrange(1, more.len() as int));
            assert(more.subrange(1, more.len() as int) =~= all.subrange((r@.len() + 1) as int, all.len() as int));
            r.push((p, end));
            p = p + k + 1;
            assert(s@.subrange(p as int, s@.len() as int) =~= tail);
        }
        assert forall|i: int| 0 <= i < r@.len() implies is_range(s@, #[trigger] r@[i], all[i]) by {
            if i < held.len() {
                assert(r@[i] == held[i]);
            }
        }
    }
    assert(s@.subrange(p as int, s@.len() as int) =~= Seq::empty());
    r
}

/// The text behind an optional slice.
pub open spec fn opt_slice(o: Option<&[char]>) -> Option<Seq<char>> {
    match o {
        Some(s) => Some(s@),
        None => None,
    }
}

/// An ASCII decimal digit.
pub open spec fn digit(c: char) -> bool {
    '0' <= c <= '9'
}

pub fn is_digit(c: char) -> (b: bool)
    ensures
        b == digit(c),
{
    let n: u32 = c as u32;
    48 <= n && n <= 57
}

/// Every character is a decimal digit.
pub open spec fn all_digits(s: Seq<char>) -> bool {
    forall|i: int| 0 <= i < s.len() ==> digit(#[trigger] s[i])
}

/// The number that a row of decimal digits spells.
pub open spec fn digits_value(s: Seq<char>) -> int
    decreases s.len(),
{
    if s.len() == 0 {
        0
    } else {
        digits_value(s.subrange(0, s.len() - 1)) * 10 + (s[s.len() - 1] as int - '0' as int)
    }
}

proof fn digits_value_grows(s: Seq<char>, k: int)
    requires
        all_digits(s),
        0 <= k <= s.len(),
    ensures
        0 <= digits_value(s.subrange(0, k)) <= digits_value(s),
    decreases s.len(),
{
    if k == s.len() {
        assert(s.subrange(0, k) =~= s);
        if s.len() > 0 {
            digits_value_grows(s.subrange(0, s.len() - 1), s.len() - 1);
        }
    } else {
        let t = s.subrange(0, s.len() - 1);
        digits_value_grows(t, k);
        assert(t.subrange(0, k) =~= s.subrange(0, k));
        assert(digit(s[s.len() - 1]));
    }
}

/// The number that a text of decimal digits spells.
pub open spec fn unsigned_value(s: Seq<char>) -> Option<int> {
    if s.len() > 0 && all_digits(s) {
        Some(digits_value(s))
    } else {
        None
    }
}

/// The number that a text of decimal digits spells, where it fits into 64 bits.
pub fn parse_digits(s: &[char]) -> (r: Option<u64>)
    ensures
        match r {
            Some(v) => unsigned_value(s@) == Some(v as int),
            None => unsigned_value(s@) is None || unsigned_value(s@)->0 > u64::MAX,
        },
{
    if s.len() == 0 {
        return None;
    }
    let mut v: u64 = 0;
    let mut i: usize = 0;
    while i < s.len()
        invariant
            i <= s@.len(),
            s@.len() > 0,
            all_digits(s@.subrange(0, i as int)),
            v == digits_value(s@.subrange(0, i as int)),
        decreases s@.len() - i,
    {
        if !is_digit(s[i]) {
            assert(!digit(s@[i as int]));
            return None;
        }
        assert(s@.subrange(0, i + 1).subrange(0, i as int) =~= s@.subrange(0, i as int));
        let d: u64 = (s[i] as u32 - 48) as u64;
        assert(digits_value(s@.subrange(0, i + 1)) == v * 10 + d);
        assert(all_digits(s@.subrange(0, i + 1))) by {
            assert forall|j: int| 0 <= j < i + 1 implies digit(#[trigger] s@.subrange(0, i + 1)[j]) by {
                if j < i {
                    assert(digit(s@.subrange(0, i as int)[j]));
                }
            }
        }
        if v > 1_844_674_407_370_955_161 || (v == 1_844_674_407_370_955_161 && d > 5) {
            proof {
                if all_digits(s@) {
                    digits_value_grows(s@, i + 1);
                }
            }
            return None;
        }
        v = v * 10 + d;
        i += 1;
    }
    assert(s@.subrange(0, s@.len() as int) =~= s@);
    Some(v)
}

/// The number that an optionally signed text of decimal digits spells.
pub open spec fn signed_value(s: Seq<char>) -> Option<int> {
    if s.len() > 0 && s[0] == '-' {
        match unsigned_value(s.subrange(1, s.len() as int)) {
            Some(v) => Some(-v),
            None => None,
        }
    } else if s.len() > 0 && s[0] == '+' {
        unsigned_value(s.subrange(1, s.len() as int))
    } else {
        unsigned_value(s)
    }
}

/// `str::parse` into an `i64`: a number outside its bounds is refused.
pub open spec fn i64_of_text(s: Seq<char>) -> Option<int> {
    match signed_value(s) {
        Some(v) => if i64::MIN <= v <= i64::MAX {
            Some(v)
        } else {
            None
        },
        None => None,
    }
}

pub fn parse_i64(s: &[char]) -> (r: Option<i64>)
    ensures
        r matches Some(v) ==> i64_of_text(s@) == Some(v as int),
        r is None ==> i64_of_text(s@) is None,
{
    proof {
        assert forall|t: Seq<char>| #[trigger] all_digits(t) implies digits_value(t) >= 0 by {
            digits_value_grows(t, 0);
        }
    }
    if s.len() > 0 && s[0] == '-' {
        match parse_digits(slice_subrange(s, 1, s.len())) {
            Some(v) => {
                if v <= 0x7fff_ffff_ffff_ffff {
                    Some(-(v as i64))
                } else if v == 0x8000_0000_0000_0000 {
                    Some(-0x8000_0000_0000_0000i64)
                } else {
                    None
                }
            },
            None => None,
        }
    } else {
        let digits: &[char] = if s.len() > 0 && s[0] == '+' {
            slice_subrange(s, 1, s.len())
        } else {
            s
        };
        match parse_digits(digits) {
            Some(v) => {
                if v <= 0x7fff_ffff_ffff_ffff {
                    Some(v as i64)
                } else {
                    None
                }
            },
            None => None,
        }
    }
}

/// `str::parse` into a `u64`: a sign other than `+` and a number outside its
/// bounds are refused.
pub open spec fn u64_of_text(s: Seq<char>) -> Option<int> {
    let v = if s.len() > 0 && s[0] == '+' {
        unsigned_value(s.subrange(1, s.len() as int))
    } else {
        unsigned_value(s)
    };
    match v {
        Some(n) => if n <= u64::MAX {
            Some(n)
        } else {
            None
        },
        None => None,
    }
}

pub fn parse_u64(s: &[char]) -> (r: Option<u64>)
    ensures
        r matches Some(v) ==> u64_of_text(s@) == Some(v as int),
        r is None ==> u64_of_text(s@) is None,
{
    let digits: &[char] = if s.len() > 0 && s[0] == '+' {
        slice_subrange(s, 1, s.len())
    } else {
        s
    };
    parse_digits(digits)
}

/// The decimal digits of a number.
pub open spec fn decimal(n: int) -> Seq<char>
    decreases n,
{
    if n < 0 {
        Seq::empty()
    } else if n < 10 {
        seq![('0' as int + n) as char]
    } else {
        decimal(n / 10).push(('0' as int + n % 10) as char)
    }
}

/// A number in decimal writing, with a minus sign where it is negative.
pub open spec fn int_text(n: int) -> Seq<char> {
    if n < 0 {
        seq!['-'] + decimal(-n)
    } else {
        decimal(n)
    }
}

/// The character of a decimal digit.
fn digit_char(d: u64) -> (c: char)
    requires
        d < 10,
    ensures
        c == ('0' as int + d) as char,
{
    (48u8 + d as u8) as char
}

fn append_decimal(out: &mut String, n: u64)
    ensures
        final(out)@ == old(out)@ + decimal(n as int),
    decreases n,
{
    if n >= 10 {
        append_decimal(out, n / 10);
        push_char(out, digit_char(n % 10));
    } else {
        push_char(out, digit_char(n));
    }
    assert(out@ =~= old(out)@ + decimal(n as int));
}

/// The decimal writing of an integer.
pub fn text_of_i64(n: i64) -> (s: String)
    ensures
        s@ == int_text(n as int),
{
    let mut s: String = String::new();
    if n < 0 {
        push_char(&mut s, '-');
        let magnitude: u64 = if n == -0x8000_0000_0000_0000i64 {
            0x8000_0000_0000_0000
        } else {
            (-n) as u64
        };
        append_decimal(&mut s, magnitude);
    } else {
        append_decimal(&mut s, n as u64);
    }
    assert(s@ =~= int_text(n as int));
    s
}

/// The decimal writing of a count.
pub fn text_of_usize(n: usize) -> (s: String)
    ensures
        s@ == int_text(n as int),
{
    let mut s: String = String::new();
    append_decimal(&mut s, n as u64);
    assert(s@ =~= int_text(n as int));
    s
}

/// Joins two texts.
pub fn concat(a: &str, b: &str) -> (s: String)
    ensures
        s@ == a@ + b@,
{
    let mut s: String = a.to_owned();
    s.append(b);
    s
}

/// Joins three texts.
pub fn concat3(a: &str, b: &str, c: &str) -> (s: String)
    ensures
        s@ == a@ + b@ + c@,
{
    let mut s: String = a.to_owned();
    s.append(b);
    s.append(c);
    s
}

/// The lower-case form of an ASCII letter; any other character unchanged.
pub open spec fn lower_char(c: char) -> char {
    if 'A' <= c <= 'Z' {
        (c as int + 32) as char
    } else {
        c
    }
}

pub fn ascii_lower(c: char) -> (r: char)
    ensures
        r == lower_char(c),
{
    let n: u32 = c as u32;
    if 65 <= n && n <= 90 {
        (n as u8 + 32u8) as char
    } else {
        c
    }
}

/// A text with its ASCII letters in lower case.
pub open spec fn lower(s: Seq<char>) -> Seq<char> {
    s.map_values(|c: char| lower_char(c))
}

/// `str::to_ascii_lowercase`.
pub fn to_lower(s: &str) -> (r: String)
    ensures
        r@ == lower(s@),
{
    let chars: Vec<char> = chars_of(s);
    let mut r: String = String::new();
    let mut i: usize = 0;
    while i < chars.len()
        invariant
            i <= chars@.len(),
            chars@ == s@,
            r@ == lower(s@.take(i as int)),
        decreases chars@.len() - i,
    {
        push_char(&mut r, ascii_lower(chars[i]));
        i += 1;
        assert(r@ =~= lower(s@.take(i as int)));
    }
    assert(s@.take(s@.len() as int) =~= s@);
    r
}

/// What `str::to_lowercase` makes of a text.
pub uninterp spec fn lowercase_of(text: Seq<char>) -> Seq<char>;

/// `str::to_lowercase`: the text in lower case by the rules of Unicode, which
/// depends on the text alone. The rules themselves are left unsaid.
#[verifier::external_body]
pub(crate) fn lowercase(text: &str) -> (r: String)
    ensures
        r@ == lowercase_of(text@),
{
    text.to_lowercase()
}

/// Dictionary order by code points, which is the order of the UTF-8 bytes.
pub open spec fn less(a: Seq<char>, b: Seq<char>) -> bool
    decreases a.len(),
{
    if b.len() == 0 {
        false
    } else if a.len() == 0 {
        true
    } else if a[0] == b[0] {
        less(a.subrange(1, a.len() as int), b.subrange(1, b.len() as int))
    } else {
        a[0] < b[0]
    }
}

/// The dictionary order is total: of two different texts one is less.
pub proof fn less_total(a: Seq<char>, b: Seq<char>)
    ensures
        less(a, b) || less(b, a) || a == b,
        !(less(a, b) && less(b, a)),
        a == b ==> !less(a, b),
    decreases a.len(),
{
    if a.len() > 0 && b.len() > 0 && a[0] == b[0] {
        let x = a.subrange(1, a.len() as int);
        let y = b.subrange(1, b.len() as int);
        less_total(x, y);
        if x == y {
            assert(a =~= seq![a[0]] + x);
            assert(b =~= seq![b[0]] + y);
        }
    } else if a.len() == 0 && b.len() == 0 {
        assert(a =~= b);
    }
}

/// The dictionary order is transitive.
pub proof fn less_trans(a: Seq<char>, b: Seq<char>, c: Seq<char>)
    requires
        less(a, b),
        less(b, c),
    ensures
        less(a, c),
    decreases a.len(),
{
    if a.len() > 0 && a[0] == b[0] && b[0] == c[0] {
        less_trans(
            a.subrange(1, a.len() as int),
            b.subrange(1, b.len() as int),
            c.subrange(1, c.len() as int),
        );
    }
}

fn char_before(a: char, b: char) -> (r: bool)
    ensures
        r == (a < b),
{
    (a as u32) < (b as u32)
}

/// Whether `a` comes before `b` in dictionary order.
pub fn comes_before(a: &str, b: &str) -> (r: bool)
    ensures
        r == less(a@, b@),
{
    let x: Vec<char> = chars_of(a);
    let y: Vec<char> = chars_of(b);
    let mut i: usize = 0;
    assert(x@.subrange(0, x@.len() as int) =~= x@);
    assert(y@.subrange(0, y@.len() as int) =~= y@);
    while i < x.len() && i < y.len()
        invariant
            i <= x@.len(),
            i <= y@.len(),
            x@ == a@,
            y@ == b@,
            less(a@, b@) == less(
                x@.subrange(i as int, x@.len() as int),
                y@.subrange(i as int, y@.len() as int),
            ),
        decreases x@.len() - i,
    {
        let ghost p = x@.subrange(i as int, x@.len() as int);
        let ghost q = y@.subrange(i as int, y@.len() as int);
        if x[i] != y[i] {
            return char_before(x[i], y[i]);
        }
        assert(p.subrange(1, p.len() as int) =~= x@.subrange(i + 1, x@.len() as int));
        assert(q.subrange(1, q.len() as int) =~= y@.subrange(i + 1, y@.len() as int));
        i += 1;
    }
    i < y.len()
}

/// The first `n` characters of a text, or all of it.
pub open spec fn head(s: Seq<char>, n: int) -> Seq<char> {
    if s.len() > n {
        s.subrange(0, n)
    } else {
        s
    }
}

/// The first `n` characters of a text, or all of it.
pub fn head_of(s: &str, n: usize) -> (r: String)
    ensures
        r@ == head(s@, n as int),
{
    let chars: Vec<char> = chars_of(s);
    if chars.len() > n {
        text_of(slice_subrange(chars.as_slice(), 0, n))
    } else {
        s.to_owned()
    }
}

} // verus!
