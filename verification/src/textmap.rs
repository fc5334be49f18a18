//! A small map from texts to texts.
use vstd::prelude::*;
use crate::text::same;

verus! {

/// A map from texts to texts, held as a list of entries with distinct keys.
pub struct TextMap {
    entries: Vec<(String, String)>,
}

/// The map that a list of entries stands for.
pub closed spec fn entries_view(s: Seq<(String, String)>) -> Map<Seq<char>, Seq<char>>
    decreases s.len(),
{
    if s.len() == 0 {
        Map::empty()
    } else {
        entries_view(s.subrange(0, s.len() - 1)).insert(s[s.len() - 1].0@, s[s.len() - 1].1@)
    }
}

proof fn entries_update(s: Seq<(String, String)>, i: int, e: (String, String))
    requires
        0 <= i < s.len(),
        s[i].0@ == e.0@,
        forall|j: int| i < j < s.len() ==> s[j].0@ != e.0@,
    ensures
        entries_view(s.update(i, e)) == entries_view(s).insert(e.0@, e.1@),
    decreases s.len(),
{
    let t = s.update(i, e);
    let n = s.len() - 1;
    if i == n {
        assert(t.subrange(0, n) =~= s.subrange(0, n));
        assert(entries_view(t) =~= entries_view(s).insert(e.0@, e.1@));
    } else {
        assert(t.subrange(0, n) =~= s.subrange(0, n).update(i, e));
        entries_update(s.subrange(0, n), i, e);
        assert(t[n] == s[n]);
        assert(entries_view(t) =~= entries_view(s).insert(e.0@, e.1@));
    }
}

proof fn entries_lookup(s: Seq<(String, String)>, key: Seq<char>, from: int)
    requires
        0 <= from <= s.len(),
        forall|j: int| from <= j < s.len() ==> s[j].0@ != key,
    ensures
        from == 0 ==> !entries_view(s).contains_key(key),
        from > 0 && s[from - 1].0@ == key ==> entries_view(s).contains_key(key)
            && entries_view(s)[key] == s[from - 1].1@,
    decreases s.len(),
{
    if s.len() > from {
        entries_lookup(s.subrange(0, s.len() - 1), key, from);
    }
}

/// The last entry with a key of the map.
proof fn last_entry(s: Seq<(String, String)>, key: Seq<char>) -> (i: int)
    requires
        entries_view(s).contains_key(key),
    ensures
        0 <= i < s.len(),
        s[i].0@ == key,
        forall|j: int| i < j < s.len() ==> (#[trigger] s[j]).0@ != key,
    decreases s.len(),
{
    let n = s.len() - 1;
    if s[n].0@ == key {
        n
    } else {
        let front = s.subrange(0, n);
        let i = last_entry(front, key);
        assert forall|j: int| i < j < s.len() implies (#[trigger] s[j]).0@ != key by {
            if j < n {
                assert(front[j] == s[j]);
            }
        }
        i
    }
}

/// The list has every key of the map once, with its value, and no other.
pub open spec fn lists(s: Seq<(String, String)>, m: Map<Seq<char>, Seq<char>>) -> bool {
    &&& forall|i: int| 0 <= i < s.len() ==> lookup(m, (#[trigger] s[i]).0@) == Some(s[i].1@)
    &&& forall|i: int, j: int| 0 <= i < j < s.len() ==> (#[trigger] s[i]).0@ != (#[trigger] s[j]).0@
    &&& forall|key: Seq<char>| #[trigger]
        m.contains_key(key) ==> exists|i: int| 0 <= i < s.len() && (#[trigger] s[i]).0@ == key
}

/// The value under a key.
pub open spec fn lookup(m: Map<Seq<char>, Seq<char>>, key: Seq<char>) -> Option<Seq<char>> {
    if m.contains_key(key) {
        Some(m[key])
    } else {
        None
    }
}

impl TextMap {
    pub closed spec fn view(&self) -> Map<Seq<char>, Seq<char>> {
        entries_view(self.entries@)
    }

    /// The empty map.
    pub fn new() -> (m: TextMap)
        ensures
            m@ == Map::<Seq<char>, Seq<char>>::empty(),
    {
        TextMap { entries: Vec::new() }
    }

    /// The value under a key.
    pub fn get(&self, key: &str) -> (r: Option<&str>)
        ensures
            crate::json::opt_text(r) == lookup(self@, key@),
    {
        let mut i: usize = self.entries.len();
        while i > 0
            invariant
                i <= self.entries@.len(),
                forall|j: int| i <= j < self.entries@.len() ==> self.entries@[j].0@ != key@,
            decreases i,
        {
            if same(self.entries[i - 1].0.as_str(), key) {
                proof {
                    entries_lookup(self.entries@, key@, i as int);
                }
                return Some(self.entries[i - 1].1.as_str());
            }
            i -= 1;
        }
        proof {
            entries_lookup(self.entries@, key@, 0);
        }
        None
    }

    /// Puts a value under a key, in place of the one that was there.
    pub fn insert(&mut self, key: String, value: String)
        ensures
            final(self)@ == old(self)@.insert(key@, value@),
    {
        let ghost before = self.entries@;
        let mut i: usize = self.entries.len();
        while i > 0
            invariant
                i <= self.entries@.len(),
                self.entries@ == before,
                before == old(self).entries@,
                forall|j: int| i <= j < self.entries@.len() ==> self.entries@[j].0@ != key@,
            decreases i,
        {
            if same(self.entries[i - 1].0.as_str(), key.as_str()) {
                let e: (String, String) = (key, value);
                proof {
                    entries_update(before, i - 1, e);
                }
                self.entries.set(i - 1, e);
                return;
            }
            i -= 1;
        }
        self.entries.push((key, value));
        assert(self.entries@.subrange(0, self.entries@.len() - 1) =~= before);
    }

    fn comes_again(&self, i: usize) -> (b: bool)
        requires
            i < self.entries@.len(),
        ensures
            b == exists|j: int| i < j < self.entries@.len() && (#[trigger] self.entries@[j]).0@ == self.entries@[i as int].0@,
    {
        let n: usize = self.entries.len();
        let mut j: usize = i + 1;
        while j < n
            invariant
                i < j <= n,
                n == self.entries@.len(),
                forall|k: int| i < k < j ==> (#[trigger] self.entries@[k]).0@ != self.entries@[i as int].0@,
            decreases n - j,
        {
            if same(self.entries[j].0.as_str(), self.entries[i].0.as_str()) {
                return true;
            }
            j += 1;
        }
        false
    }

    /// The keys with their values.
    pub fn pairs(&self) -> (r: Vec<(String, String)>)
        ensures
            lists(r@, self@),
    {
        let ghost all = self.entries@;
        let mut r: Vec<(String, String)> = Vec::new();
        let mut i: usize = 0;
        while i < self.entries.len()
            invariant
                i <= self.entries@.len(),
                all == self.entries@,
                forall|k: int|
                    0 <= k < r@.len() ==> lookup(entries_view(all), (#[trigger] r@[k]).0@) == Some(r@[k].1@),
                forall|k: int, j: int|
                    0 <= k < r@.len() && i <= j < all.len() ==> (#[trigger] r@[k]).0@ != (#[trigger] all[j]).0@,
                forall|k: int, j: int| 0 <= k < j < r@.len() ==> (#[trigger] r@[k]).0@ != (#[trigger] r@[j]).0@,
                forall|j: int|
                    0 <= j < i && (forall|l: int| j < l < all.len() ==> (#[trigger] all[l]).0@ != all[j].0@)
                        ==> exists|k: int| 0 <= k < r@.len() && (#[trigger] r@[k]).0@ == (#[trigger] all[j]).0@,
            decreases self.entries@.len() - i,
        {
            let ghost before = r@;
            if !self.comes_again(i) {
                proof {
                    entries_lookup(all, all[i as int].0@, i + 1);
                }
                r.push((self.entries[i].0.as_str().to_owned(), self.entries[i].1.as_str().to_owned()));
                assert(r@[before.len() as int].0@ == all[i as int].0@);
                assert forall|j: int|
                    0 <= j < i + 1 && (forall|l: int| j < l < all.len() ==> (#[trigger] all[l]).0@ != all[j].0@) implies exists|
                    k: int,
                | 0 <= k < r@.len() && (#[trigger] r@[k]).0@ == (#[trigger] all[j]).0@ by {
                    if j < i {
                        let k = choose|k: int| 0 <= k < before.len() && (#[trigger] before[k]).0@ == all[j].0@;
                        assert(r@[k] == before[k]);
                    }
                }
            }
            i += 1;
        }
        proof {
            assert forall|key: Seq<char>| #[trigger] self@.contains_key(key) implies exists|k: int|
                0 <= k < r@.len() && (#[trigger] r@[k]).0@ == key by {
                let j = last_entry(all, key);
                assert(all[j].0@ == key);
            }
        }
        r
    }
}

} // verus!
