//! The in-memory key/value store shared by all handlers. A store is a list
//! of entries with pairwise-distinct keys; its abstract value is the
//! key-to-value mapping those entries denote. Length validation of keys and
//! values lives here; the character-set policy is the Set handler's.

use vstd::prelude::*;
use vstd::string::StrSliceExecFns;
use vstd::string::StringExecFns;
use crate::strutil::str_eq;

verus! {

/// The mapping denoted by a sequence of key/value entries; a later entry
/// wins over an earlier one with the same key.
pub open spec fn entries_map(s: Seq<(String, String)>) -> Map<Seq<char>, Seq<char>>
    decreases s.len(),
{
    if s.len() == 0 {
        Map::empty()
    } else {
        entries_map(s.drop_last()).insert(s.last().0@, s.last().1@)
    }
}

/// Some entry carries the key `k`.
pub open spec fn has_key(s: Seq<(String, String)>, k: Seq<char>) -> bool {
    exists|i: int| 0 <= i < s.len() && (#[trigger] s[i]).0@ == k
}

/// No two entries share a key.
pub open spec fn distinct_keys(s: Seq<(String, String)>) -> bool {
    forall|i: int, j: int|
        0 <= i < j < s.len() ==> (#[trigger] s[i]).0@ != (#[trigger] s[j]).0@
}

/// The denoted mapping has a finite domain, made of exactly the keys that
/// some entry carries.
pub proof fn lemma_entries_map_dom(s: Seq<(String, String)>)
    ensures
        entries_map(s).dom().finite(),
        forall|k: Seq<char>| #[trigger] entries_map(s).contains_key(k) <==> has_key(s, k),
    decreases s.len(),
{
    if s.len() == 0 {
        assert(forall|k: Seq<char>| !(#[trigger] entries_map(s).contains_key(k)));
    } else {
        let s0 = s.drop_last();
        lemma_entries_map_dom(s0);
        assert forall|k: Seq<char>| #[trigger] entries_map(s).contains_key(k) implies has_key(
            s,
            k,
        ) by {
            if k == s.last().0@ {
                assert((s[s.len() - 1]).0@ == k);
            } else {
                let i = choose|i: int| 0 <= i < s0.len() && (#[trigger] s0[i]).0@ == k;
                assert((s[i]).0@ == k);
            }
        }
        assert forall|k: Seq<char>| has_key(s, k) implies #[trigger] entries_map(
            s,
        ).contains_key(k) by {
            let i = choose|i: int| 0 <= i < s.len() && (#[trigger] s[i]).0@ == k;
            if i < s.len() - 1 {
                assert((s0[i]).0@ == k);
                assert(has_key(s0, k));
            }
        }
    }
}

/// Each entry's value is the one the denoted mapping gives for its key,
/// provided the keys are distinct.
pub proof fn lemma_entries_map_index(s: Seq<(String, String)>, i: int)
    requires
        distinct_keys(s),
        0 <= i < s.len(),
    ensures
        entries_map(s).contains_key(s[i].0@),
        entries_map(s)[s[i].0@] == s[i].1@,
    decreases s.len(),
{
    if i < s.len() - 1 {
        let s0 = s.drop_last();
        assert(s0[i] == s[i]);
        lemma_entries_map_index(s0, i);
        assert(s[i].0@ != s.last().0@);
    }
}

/// With distinct keys, the denoted mapping has exactly one key per entry.
pub proof fn lemma_entries_map_len(s: Seq<(String, String)>)
    requires
        distinct_keys(s),
    ensures
        entries_map(s).dom().len() == s.len(),
    decreases s.len(),
{
    if s.len() == 0 {
        assert(entries_map(s).dom() =~= Set::<Seq<char>>::empty());
    } else {
        let s0 = s.drop_last();
        lemma_entries_map_len(s0);
        lemma_entries_map_dom(s0);
        assert forall|j: int| 0 <= j < s0.len() implies (#[trigger] s0[j]).0@ != s.last().0@ by {
            assert(s0[j] == s[j]);
            assert((s[s.len() - 1]).0@ == s.last().0@);
        }
        assert(!has_key(s0, s.last().0@));
        assert(!entries_map(s0).contains_key(s.last().0@));
        assert(entries_map(s).dom() =~= entries_map(s0).dom().insert(s.last().0@));
    }
}

/// Two entry lists that agree position by position on the text of their keys
/// and values denote the same mapping.
pub proof fn lemma_entries_map_congruent(a: Seq<(String, String)>, b: Seq<(String, String)>)
    requires
        a.len() == b.len(),
        forall|i: int|
            0 <= i < a.len() ==> (#[trigger] a[i]).0@ == (#[trigger] b[i]).0@ && a[i].1@
                == b[i].1@,
    ensures
        entries_map(a) == entries_map(b),
    decreases a.len(),
{
    if a.len() > 0 {
        let a0 = a.drop_last();
        let b0 = b.drop_last();
        assert forall|i: int|
            0 <= i < a0.len() implies (#[trigger] a0[i]).0@ == (#[trigger] b0[i]).0@ && a0[i].1@
            == b0[i].1@ by {
            assert(a0[i] == a[i]);
            assert(b0[i] == b[i]);
        }
        lemma_entries_map_congruent(a0, b0);
        assert(a.last() == a[a.len() - 1]);
        assert(b.last() == b[b.len() - 1]);
    }
}

/// Overwriting the entry that carries a key denotes inserting into the
/// mapping, provided the keys are distinct.
proof fn lemma_entries_map_update(s: Seq<(String, String)>, i: int, p: (String, String))
    requires
        distinct_keys(s),
        0 <= i < s.len(),
        s[i].0@ == p.0@,
    ensures
        entries_map(s.update(i, p)) == entries_map(s).insert(p.0@, p.1@),
    decreases s.len(),
{
    let t = s.update(i, p);
    let s0 = s.drop_last();
    if i == s.len() - 1 {
        assert(t.drop_last() =~= s0);
        assert(t.last() == p);
        assert(entries_map(s).insert(p.0@, p.1@) =~= entries_map(s0).insert(p.0@, p.1@));
    } else {
        assert(t.drop_last() =~= s0.update(i, p));
        assert(t.last() == s.last());
        assert(s0[i] == s[i]);
        lemma_entries_map_update(s0, i, p);
        assert(p.0@ != s.last().0@);
        assert(entries_map(s0).insert(p.0@, p.1@).insert(s.last().0@, s.last().1@)
            =~= entries_map(s0).insert(s.last().0@, s.last().1@).insert(p.0@, p.1@));
    }
}

/// Removing the entry that carries a key denotes removing the key from the
/// mapping, provided the keys are distinct.
proof fn lemma_entries_map_remove(s: Seq<(String, String)>, i: int)
    requires
        distinct_keys(s),
        0 <= i < s.len(),
    ensures
        entries_map(s.remove(i)) == entries_map(s).remove(s[i].0@),
    decreases s.len(),
{
    let k = s[i].0@;
    let s0 = s.drop_last();
    s.remove_ensures(i);
    if i == s.len() - 1 {
        assert(s.remove(i) =~= s0);
        lemma_entries_map_dom(s0);
        assert forall|j: int| 0 <= j < s0.len() implies (#[trigger] s0[j]).0@ != k by {
            assert(s0[j] == s[j]);
        }
        assert(!has_key(s0, k));
        assert(!entries_map(s0).contains_key(k));
        assert(entries_map(s0).remove(k) =~= entries_map(s0));
        assert(entries_map(s).remove(k) =~= entries_map(s0));
    } else {
        assert(s.remove(i).drop_last() =~= s0.remove(i));
        assert(s.remove(i).last() == s.last());
        assert(s0[i] == s[i]);
        lemma_entries_map_remove(s0, i);
        assert(k != s.last().0@);
        assert(entries_map(s0).remove(k).insert(s.last().0@, s.last().1@) =~= entries_map(
            s0,
        ).insert(s.last().0@, s.last().1@).remove(k));
    }
}

/// The rejection text for a key that is empty or longer than 64 characters.
pub open spec fn key_len_err() -> Seq<char> {
    "Key must be between 1 and 64 characters"@
}

/// The rejection text for a value longer than 1000 characters.
pub open spec fn value_len_err() -> Seq<char> {
    "Value must be less than 1000 characters"@
}

/// The key/value store: a mapping from string keys to string values with
/// the lifetime of the hosting process. Its abstract value (the view) is a
/// `Map` from key text to value text.
pub struct ProcessState {
    entries: Vec<(String, String)>,
}

impl View for ProcessState {
    type V = Map<Seq<char>, Seq<char>>;

    closed spec fn view(&self) -> Map<Seq<char>, Seq<char>> {
        entries_map(self.entries@)
    }
}

impl ProcessState {
    /// Well-formedness: no two entries share a key. Constructors establish
    /// it and every operation preserves it.
    pub closed spec fn wf(&self) -> bool {
        distinct_keys(self.entries@)
    }

    /// A fresh, empty store.
    pub fn new() -> (s: Self)
        ensures
            s.wf(),
            s@ == Map::<Seq<char>, Seq<char>>::empty(),
    {
        let s = ProcessState { entries: Vec::new() };
        proof {
            assert(s.entries@.len() == 0);
        }
        s
    }

    /// The index of the entry carrying `key`, if any.
    fn find_index(&self, key: &str) -> (r: Option<usize>)
        ensures
            r matches Some(i) ==> i < self.entries@.len() && self.entries@[i as int].0@ == key@,
            r is None ==> !has_key(self.entries@, key@),
    {
        let n = self.entries.len();
        let mut i: usize = 0;
        while i < n
            invariant
                n == self.entries@.len(),
                i <= n,
                forall|j: int| 0 <= j < i ==> (#[trigger] self.entries@[j]).0@ != key@,
            decreases n - i,
        {
            if str_eq(self.entries[i].0.as_str(), key) {
                return Some(i);
            }
            i += 1;
        }
        None
    }

    /// Inserts or overwrites the entry for `key`, after validating lengths:
    /// a key must be 1 to 64 characters, a value at most 1000.
    pub fn set(&mut self, key: &str, value: &str) -> (r: Result<(), String>)
        requires
            old(self).wf(),
        ensures
            final(self).wf(),
            key@.len() == 0 || key@.len() > 64 ==> (r matches Err(e) && e@ == key_len_err()
                && *final(self) == *old(self)),
            1 <= key@.len() <= 64 && value@.len() > 1000 ==> (r matches Err(e) && e@
                == value_len_err() && *final(self) == *old(self)),
            1 <= key@.len() <= 64 && value@.len() <= 1000 ==> r is Ok && final(self)@ == old(
                self,
            )@.insert(key@, value@),
    {
        let klen = key.unicode_len();
        if klen == 0 || klen > 64 {
            return Err(String::from_str("Key must be between 1 and 64 characters"));
        }
        let vlen = value.unicode_len();
        if vlen > 1000 {
            return Err(String::from_str("Value must be less than 1000 characters"));
        }
        let ghost s = self.entries@;
        let pair = (String::from_str(key), String::from_str(value));
        match self.find_index(key) {
            Some(i) => {
                proof {
                    lemma_entries_map_update(s, i as int, pair);
                    assert forall|a: int, b: int|
                        0 <= a < b < s.update(i as int, pair).len() implies (#[trigger] s.update(
                        i as int,
                        pair,
                    )[a]).0@ != (#[trigger] s.update(i as int, pair)[b]).0@ by {
                        assert(s[a].0@ != s[b].0@);
                    }
                }
                self.entries[i] = pair;
            },
            None => {
                proof {
                    assert(s.push(pair).drop_last() =~= s);
                    assert(s.push(pair).last() == pair);
                    assert forall|j: int| 0 <= j < s.len() implies (#[trigger] s[j]).0@
                        != key@ by {
                        if s[j].0@ == key@ {
                            assert(has_key(s, key@));
                        }
                    }
                    assert forall|a: int, b: int|
                        0 <= a < b < s.push(pair).len() implies (#[trigger] s.push(pair)[a]).0@
                        != (#[trigger] s.push(pair)[b]).0@ by {
                        assert(s.push(pair)[a] == s[a]);
                        if b < s.len() {
                            assert(s.push(pair)[b] == s[b]);
                        } else {
                            assert(s.push(pair)[b] == pair);
                        }
                    }
                }
                self.entries.push(pair);
            },
        }
        Ok(())
    }

    /// The current value for `key`, or `None` if the key is absent.
    pub fn get(&self, key: &str) -> (r: Option<String>)
        requires
            self.wf(),
        ensures
            r is Some <==> self@.contains_key(key@),
            r matches Some(v) ==> v@ == self@[key@],
    {
        proof {
            lemma_entries_map_dom(self.entries@);
        }
        match self.find_index(key) {
            Some(i) => {
                proof {
                    lemma_entries_map_index(self.entries@, i as int);
                }
                Some(self.entries[i].1.clone())
            },
            None => None,
        }
    }

    /// A snapshot copy of the whole mapping at the instant of the call,
    /// independent of later mutations.
    pub fn list(&self) -> (r: Vec<(String, String)>)
        requires
            self.wf(),
        ensures
            entries_map(r@) == self@,
            distinct_keys(r@),
    {
        let n = self.entries.len();
        let mut out: Vec<(String, String)> = Vec::new();
        let mut i: usize = 0;
        while i < n
            invariant
                n == self.entries@.len(),
                i <= n,
                out@.len() == i,
                forall|j: int|
                    0 <= j < i ==> (#[trigger] out@[j]).0@ == (#[trigger] self.entries@[j]).0@
                        && out@[j].1@ == self.entries@[j].1@,
            decreases n - i,
        {
            out.push((self.entries[i].0.clone(), self.entries[i].1.clone()));
            i += 1;
        }
        proof {
            lemma_entries_map_congruent(out@, self.entries@);
            assert forall|a: int, b: int| 0 <= a < b < out@.len() implies (#[trigger] out@[a]).0@
                != (#[trigger] out@[b]).0@ by {
                assert(self.entries@[a].0@ != self.entries@[b].0@);
            }
        }
        out
    }

    /// Removes the entry for `key` if present; says whether removal occurred.
    pub fn remove(&mut self, key: &str) -> (r: bool)
        requires
            old(self).wf(),
        ensures
            final(self).wf(),
            r == old(self)@.contains_key(key@),
            final(self)@ == old(self)@.remove(key@),
    {
        proof {
            lemma_entries_map_dom(self.entries@);
        }
        let ghost s = self.entries@;
        match self.find_index(key) {
            Some(i) => {
                proof {
                    assert(has_key(s, key@));
                    lemma_entries_map_remove(s, i as int);
                    s.remove_ensures(i as int);
                    assert forall|a: int, b: int|
                        0 <= a < b < s.remove(i as int).len() implies (#[trigger] s.remove(
                        i as int,
                    )[a]).0@ != (#[trigger] s.remove(i as int)[b]).0@ by {
                        let ra = if a < i { a } else { a + 1 };
                        let rb = if b < i { b } else { b + 1 };
                        assert(s.remove(i as int)[a] == s[ra]);
                        assert(s.remove(i as int)[b] == s[rb]);
                        assert(s[ra].0@ != s[rb].0@);
                    }
                }
                self.entries.remove(i);
                true
            },
            None => {
                proof {
                    assert(old(self)@.remove(key@) =~= old(self)@);
                }
                false
            },
        }
    }

    /// Empties the mapping; idempotent.
    pub fn clear(&mut self)
        ensures
            final(self).wf(),
            final(self)@ == Map::<Seq<char>, Seq<char>>::empty(),
    {
        self.entries.clear();
    }

    /// The store's domain is finite: it holds one key per entry.
    pub proof fn lemma_dom_finite(&self)
        requires
            self.wf(),
        ensures
            self@.dom().finite(),
    {
        lemma_entries_map_dom(self.entries@);
    }

    /// The current entry count.
    pub fn size(&self) -> (r: usize)
        requires
            self.wf(),
        ensures
            r == self@.dom().len(),
    {
        proof {
            lemma_entries_map_len(self.entries@);
        }
        self.entries.len()
    }
}

} // verus!
