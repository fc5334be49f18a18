//! Paths as texts. Their parts are separated by slashes, on Windows by slashes of
//! either kind.
use vstd::prelude::*;
use vstd::slice::slice_subrange;
use crate::text;
use crate::text::same;
use crate::variant;

verus! {

/// A path with one more part: a slash goes between, unless the path is empty
/// or ends in one. A part that begins at the root stands alone.
pub open spec fn joined(base: Seq<char>, name: Seq<char>) -> Seq<char> {
    if name.len() > 0 && name[0] == '/' {
        name
    } else if base.len() == 0 || base[base.len() - 1] == '/' {
        base + name
    } else {
        base + "/"@ + name
    }
}

/// A path with one more part.
pub fn join(base: &str, name: &str) -> (r: String)
    ensures
        r@ == joined(base@, name@),
{
    let chars: Vec<char> = text::chars_of(base);
    let more: Vec<char> = text::chars_of(name);
    if more.len() > 0 && more[0] == '/' {
        name.to_owned()
    } else if chars.len() == 0 || chars[chars.len() - 1] == '/' {
        text::concat(base, name)
    } else {
        text::concat3(base, "/", name)
    }
}

/// Position of the last `c`, or -1.
pub open spec fn last_of(s: Seq<char>, c: char) -> int
    decreases s.len(),
{
    if s.len() == 0 {
        -1
    } else if s[s.len() - 1] == c {
        s.len() - 1
    } else {
        last_of(s.subrange(0, s.len() - 1), c)
    }
}

/// The position after the last `c`, or 0 where there is none.
pub fn after_last(s: &[char], c: char) -> (r: usize)
    ensures
        r == last_of(s@, c) + 1,
        r <= s@.len(),
{
    let mut i: usize = s.len();
    assert(s@.subrange(0, s@.len() as int) =~= s@);
    while i > 0
        invariant
            i <= s@.len(),
            last_of(s@, c) == last_of(s@.subrange(0, i as int), c),
        decreases i,
    {
        if s[i - 1] == c {
            return i;
        }
        assert(s@.subrange(0, i as int).subrange(0, i - 1) =~= s@.subrange(0, i - 1));
        i -= 1;
    }
    0
}

/// The last part of a path.
pub open spec fn last_part(path: Seq<char>) -> Seq<char> {
    path.subrange(last_of(path, '/') + 1, path.len() as int)
}

/// The path without its last part and the slash before it; none where there is one part only.
pub open spec fn parent(path: Seq<char>) -> Option<Seq<char>> {
    let k = last_of(path, '/');
    if k < 0 {
        None
    } else {
        Some(path.subrange(0, k))
    }
}

/// A file name up to its last dot; a name without a dot, or with none but the
/// first character, is its own stem.
pub open spec fn stem(name: Seq<char>) -> Seq<char> {
    let k = last_of(name, '.');
    if k <= 0 {
        name
    } else {
        name.subrange(0, k)
    }
}

/// What follows the last dot of a file name, if there is one after the first character.
pub open spec fn extension(name: Seq<char>) -> Option<Seq<char>> {
    let k = last_of(name, '.');
    if k <= 0 {
        None
    } else {
        Some(name.subrange(k + 1, name.len() as int))
    }
}

/// The position of the last `c` lies within the text.
pub proof fn last_of_within(s: Seq<char>, c: char)
    ensures
        -1 <= last_of(s, c) < s.len(),
        last_of(s, c) >= 0 ==> s[last_of(s, c)] == c,
        forall|i: int| last_of(s, c) < i < s.len() ==> s[i] != c,
    decreases s.len(),
{
    if s.len() > 0 && s[s.len() - 1] != c {
        let t = s.subrange(0, s.len() - 1);
        last_of_within(t, c);
        assert forall|i: int| last_of(s, c) < i < s.len() implies s[i] != c by {
            if i < s.len() - 1 {
                assert(t[i] != c);
            }
        }
    }
}

pub fn last_part_of<'a>(path: &'a [char]) -> (r: &'a [char])
    ensures
        r@ == last_part(path@),
{
    slice_subrange(path, after_last(path, '/'), path.len())
}

pub fn stem_of<'a>(name: &'a [char]) -> (r: &'a [char])
    ensures
        r@ == stem(name@),
{
    let k: usize = after_last(name, '.');
    if k <= 1 {
        name
    } else {
        slice_subrange(name, 0, k - 1)
    }
}

pub fn extension_of<'a>(name: &'a [char]) -> (r: Option<&'a [char]>)
    ensures
        text::opt_slice(r) == extension(name@),
{
    let k: usize = after_last(name, '.');
    if k <= 1 {
        None
    } else {
        Some(slice_subrange(name, k, name.len()))
    }
}

/// What separates the parts of a path.
pub open spec fn is_sep(c: char, windows: bool) -> bool {
    c == '/' || (windows && c == '\\')
}

fn separates(c: char, windows: bool) -> (b: bool)
    ensures
        b == is_sep(c, windows),
{
    c == '/' || (windows && c == '\\')
}

/// Position of the last separator, or -1.
pub open spec fn last_sep(path: Seq<char>, windows: bool) -> int
    decreases path.len(),
{
    if path.len() == 0 {
        -1
    } else if is_sep(path[path.len() - 1], windows) {
        path.len() - 1
    } else {
        last_sep(path.subrange(0, path.len() - 1), windows)
    }
}

fn after_sep(path: &[char], windows: bool) -> (r: usize)
    ensures
        r == last_sep(path@, windows) + 1,
        r <= path@.len(),
{
    let mut i: usize = path.len();
    assert(path@.subrange(0, path@.len() as int) =~= path@);
    while i > 0
        invariant
            i <= path@.len(),
            last_sep(path@, windows) == last_sep(path@.subrange(0, i as int), windows),
        decreases i,
    {
        if separates(path[i - 1], windows) {
            return i;
        }
        assert(path@.subrange(0, i as int).subrange(0, i - 1) =~= path@.subrange(0, i - 1));
        i -= 1;
    }
    0
}

/// A path that begins with a drive, as `C:` is one.
pub open spec fn has_drive(path: Seq<char>) -> bool {
    path.len() >= 2 && path[1] == ':' && (('a' <= path[0] <= 'z') || ('A' <= path[0] <= 'Z'))
}

fn with_drive(path: &[char]) -> (b: bool)
    ensures
        b == has_drive(path@),
{
    path.len() >= 2 && path[1] == ':' && (('a' <= path[0] && path[0] <= 'z') || ('A' <= path[0] && path[0] <= 'Z'))
}

/// The length of the root that a path begins with; 0 where it begins with none.
pub open spec fn root_len(path: Seq<char>, windows: bool) -> int {
    if windows && has_drive(path) {
        if path.len() >= 3 && is_sep(path[2], windows) {
            3
        } else {
            0
        }
    } else if path.len() > 0 && is_sep(path[0], windows) {
        1
    } else {
        0
    }
}

fn root_end(path: &[char], windows: bool) -> (r: usize)
    ensures
        r == root_len(path@, windows),
        r <= path@.len(),
{
    if windows && with_drive(path) {
        if path.len() >= 3 && separates(path[2], windows) {
            3
        } else {
            0
        }
    } else if path.len() > 0 && separates(path[0], windows) {
        1
    } else {
        0
    }
}

/// The parts of a path, the last first. Between separators an empty part or a dot
/// counts for nothing; a dot at the beginning does.
pub open spec fn parts(path: Seq<char>, windows: bool) -> Seq<Seq<char>>
    decreases path.len(),
{
    let k = last_sep(path, windows);
    let part = path.subrange(k + 1, path.len() as int);
    let others = if 0 <= k < path.len() {
        parts(path.subrange(0, k), windows)
    } else {
        Seq::empty()
    };
    if part.len() == 0 || (k >= 0 && part == "."@) {
        others
    } else {
        seq![part] + others
    }
}

/// The parts of a path, the last first.
pub fn parts_of(path: &[char], windows: bool) -> (r: Vec<String>)
    ensures
        variant::strings(r@) == parts(path@, windows),
{
    let mut list: Vec<String> = Vec::new();
    let mut n: usize = path.len();
    let mut more: bool = true;
    assert(path@.subrange(0, n as int) =~= path@);
    assert(variant::strings(list@) + parts(path@, windows) =~= parts(path@, windows));
    while more
        invariant
            n <= path@.len(),
            more ==> parts(path@, windows) == variant::strings(list@) + parts(path@.subrange(0, n as int), windows),
            !more ==> parts(path@, windows) == variant::strings(list@),
        decreases
            n,
            if more {
                1int
            } else {
                0int
            },
    {
        let front: &[char] = slice_subrange(path, 0, n);
        let k: usize = after_sep(front, windows);
        let part: &[char] = slice_subrange(front, k, n);
        let ghost held = variant::strings(list@);
        let ghost others = if k > 0 {
            parts(front@.subrange(0, k - 1), windows)
        } else {
            Seq::empty()
        };
        let empty: bool = part.len() == 0 || (k > 0 && text::slice_is(part, "."));
        if !empty {
            list.push(text::text_of(part));
            assert(variant::strings(list@) =~= held.push(part@));
            assert(held.push(part@) + others =~= held + (seq![part@] + others));
        }
        assert(parts(path@, windows) == variant::strings(list@) + others);
        if k == 0 {
            more = false;
            assert(variant::strings(list@) + others =~= variant::strings(list@));
        } else {
            assert(front@.subrange(0, k - 1) =~= path@.subrange(0, k - 1));
            n = k - 1;
        }
    }
    list
}

/// Two paths name the same place: both begin at a root or neither does, and their
/// parts are the same.
pub open spec fn same_place(a: Seq<char>, b: Seq<char>, windows: bool) -> bool {
    (root_len(a, windows) > 0) == (root_len(b, windows) > 0) && parts(a, windows) == parts(b, windows)
}

/// Whether two paths name the same place.
pub fn is_same_place(a: &str, b: &str, windows: bool) -> (r: bool)
    ensures
        r == same_place(a@, b@, windows),
{
    let x: Vec<char> = text::chars_of(a);
    let y: Vec<char> = text::chars_of(b);
    if (root_end(x.as_slice(), windows) > 0) != (root_end(y.as_slice(), windows) > 0) {
        return false;
    }
    let p: Vec<String> = parts_of(x.as_slice(), windows);
    let q: Vec<String> = parts_of(y.as_slice(), windows);
    let ghost s = variant::strings(p@);
    let ghost t = variant::strings(q@);
    if p.len() != q.len() {
        assert(s.len() != t.len());
        return false;
    }
    let mut i: usize = 0;
    while i < p.len()
        invariant
            i <= p@.len(),
            p@.len() == q@.len(),
            s == variant::strings(p@),
            t == variant::strings(q@),
            s == parts(a@, windows),
            t == parts(b@, windows),
            forall|j: int| 0 <= j < i ==> s[j] == t[j],
        decreases p@.len() - i,
    {
        assert(s[i as int] == p@[i as int]@ && t[i as int] == q@[i as int]@);
        if !same(p[i].as_str(), q[i].as_str()) {
            return false;
        }
        i += 1;
    }
    assert(s =~= t);
    true
}

/// A path with one more part, on a system. On Windows a backslash goes between, unless
/// the path is empty, ends in a separator or is a bare drive; a part with a drive
/// stands alone, and one that begins at the root keeps the drive of the path.
pub open spec fn joined_on(base: Seq<char>, name: Seq<char>, windows: bool) -> Seq<char> {
    if !windows {
        joined(base, name)
    } else if has_drive(name) {
        name
    } else if name.len() > 0 && is_sep(name[0], true) {
        if has_drive(base) {
            base.subrange(0, 2) + name
        } else {
            name
        }
    } else if base.len() == 0 || is_sep(base[base.len() - 1], true) || (base.len() == 2 && has_drive(base)) {
        base + name
    } else {
        base + "\\"@ + name
    }
}

/// A path with one more part, on a system.
pub fn join_on(base: &str, name: &str, windows: bool) -> (r: String)
    ensures
        r@ == joined_on(base@, name@, windows),
{
    if !windows {
        return join(base, name);
    }
    let front: Vec<char> = text::chars_of(base);
    let more: Vec<char> = text::chars_of(name);
    if with_drive(more.as_slice()) {
        name.to_owned()
    } else if more.len() > 0 && separates(more[0], true) {
        if with_drive(front.as_slice()) {
            let drive: String = text::text_of(slice_subrange(front.as_slice(), 0, 2));
            text::concat(drive.as_str(), name)
        } else {
            name.to_owned()
        }
    } else if front.len() == 0 || separates(front[front.len() - 1], true) || (front.len() == 2 && with_drive(
        front.as_slice(),
    )) {
        text::concat(base, name)
    } else {
        text::concat3(base, "\\", name)
    }
}

/// A path without the separators, and the dots between them, that end it.
pub open spec fn bare(path: Seq<char>, windows: bool) -> Seq<char>
    decreases path.len(),
{
    let n = path.len() as int;
    if n > root_len(path, windows) && (is_sep(path[n - 1], windows) || (n > 1 && path[n - 1] == '.' && is_sep(
        path[n - 2],
        windows,
    ))) {
        bare(path.subrange(0, n - 1), windows)
    } else {
        path
    }
}

pub fn bare_of<'a>(path: &'a [char], windows: bool) -> (r: &'a [char])
    ensures
        r@ == bare(path@, windows),
{
    let mut n: usize = path.len();
    assert(path@.subrange(0, n as int) =~= path@);
    while n > root_end(slice_subrange(path, 0, n), windows) && (separates(path[n - 1], windows) || (n > 1 && path[n - 1]
        == '.' && separates(path[n - 2], windows)))
        invariant
            n <= path@.len(),
            bare(path@, windows) == bare(path@.subrange(0, n as int), windows),
        decreases n,
    {
        assert(path@.subrange(0, n as int).subrange(0, n - 1) =~= path@.subrange(0, n - 1));
        n -= 1;
    }
    slice_subrange(path, 0, n)
}

/// The length of the root or the bare drive that a path begins with.
pub open spec fn start_len(path: Seq<char>, windows: bool) -> int {
    if windows && has_drive(path) && root_len(path, windows) == 0 {
        2
    } else {
        root_len(path, windows)
    }
}

/// The directory that a path lies in; none for the empty path, for a root and for a
/// bare drive.
pub open spec fn directory(path: Seq<char>, windows: bool) -> Option<Seq<char>> {
    let whole = bare(path, windows);
    let k = last_sep(whole, windows);
    let root = start_len(whole, windows);
    if whole.len() == root {
        None
    } else if k < root {
        Some(whole.subrange(0, root))
    } else {
        Some(bare(whole.subrange(0, k), windows))
    }
}

/// The directory that a path lies in.
pub fn directory_of<'a>(path: &'a [char], windows: bool) -> (r: Option<&'a [char]>)
    ensures
        text::opt_slice(r) == directory(path@, windows),
{
    let whole: &'a [char] = bare_of(path, windows);
    let root: usize = if windows && with_drive(whole) && root_end(whole, windows) == 0 {
        2
    } else {
        root_end(whole, windows)
    };
    if whole.len() == root {
        return None;
    }
    let end: usize = after_sep(whole, windows);
    if end <= root {
        Some(slice_subrange(whole, 0, root))
    } else {
        Some(bare_of(slice_subrange(whole, 0, end - 1), windows))
    }
}

/// A list with a path; no place is listed twice.
pub open spec fn listing(list: Seq<Seq<char>>, path: Seq<char>, windows: bool) -> Seq<Seq<char>> {
    if exists|i: int| 0 <= i < list.len() && same_place(#[trigger] list[i], path, windows) {
        list
    } else {
        list.push(path)
    }
}

/// Lists a path, unless its place is listed already.
pub fn list_place(list: &mut Vec<String>, path: String, windows: bool)
    ensures
        variant::strings(final(list)@) == listing(variant::strings(old(list)@), path@, windows),
{
    let ghost texts = variant::strings(list@);
    let mut i: usize = 0;
    while i < list.len()
        invariant
            i <= list@.len(),
            list@ == old(list)@,
            texts == variant::strings(list@),
            forall|j: int| 0 <= j < i ==> !same_place(#[trigger] texts[j], path@, windows),
        decreases list@.len() - i,
    {
        assert(texts[i as int] == list@[i as int]@);
        if is_same_place(list[i].as_str(), path.as_str(), windows) {
            return;
        }
        i += 1;
    }
    list.push(path);
    assert(variant::strings(list@) =~= texts.push(path@));
}

} // verus!
