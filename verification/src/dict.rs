use vstd::prelude::*;
use crate::chars::{str_chars, chars_eq_str};

verus! {

/// The map that a list of `(key, value)` entries stands for: a later entry
/// replaces an earlier one with the same key.
pub open spec fn entries_map(s: Seq<(Seq<char>, Seq<char>)>) -> Map<Seq<char>, Seq<char>>
    decreases s.len(),
{
    if s.len() == 0 {
        Map::empty()
    } else {
        entries_map(s.drop_last()).insert(s.last().0, s.last().1)
    }
}

/// The texts of a list of string pairs.
pub open spec fn pair_texts(v: Seq<(String, String)>) -> Seq<(Seq<char>, Seq<char>)> {
    v.map_values(|e: (String, String)| (e.0@, e.1@))
}

/// A map from texts to texts, kept as the list of its updates.
pub struct TextMap {
    pub entries: Vec<(String, String)>,
}

impl View for TextMap {
    type V = Map<Seq<char>, Seq<char>>;

    open spec fn view(&self) -> Map<Seq<char>, Seq<char>> {
        entries_map(pair_texts(self.entries@))
    }
}

/// When no entry from `j + 1` on has key `k`, the map holds at `k` what entry
/// `j` holds, if its key is `k`; when no entry at all has key `k`, `k` is absent.
pub proof fn lemma_entries_map_last(s: Seq<(Seq<char>, Seq<char>)>, k: Seq<char>, j: int)
    requires
        -1 <= j < s.len(),
        forall|i: int| j < i < s.len() ==> (#[trigger] s[i]).0 != k,
        j >= 0 ==> s[j].0 == k,
    ensures
        j >= 0 ==> entries_map(s).contains_key(k) && entries_map(s)[k] == s[j].1,
        j < 0 ==> !entries_map(s).contains_key(k),
    decreases s.len(),
{
    if s.len() == 0 {
    } else if j == s.len() - 1 {
    } else {
        let t = s.drop_last();
        assert forall|i: int| j < i < t.len() implies (#[trigger] t[i]).0 != k by {
            assert(t[i] == s[i]);
        }
        if j >= 0 {
            assert(t[j] == s[j]);
        }
        lemma_entries_map_last(t, k, j);
        assert(s[s.len() - 1].0 != k);
    }
}

impl TextMap {
    /// An empty map.
    pub fn new() -> (m: TextMap)
        ensures
            m@ == Map::<Seq<char>, Seq<char>>::empty(),
            m.entries@.len() == 0,
    {
        TextMap { entries: Vec::new() }
    }

    /// Sets `key` to `value`.
    pub fn insert(&mut self, key: String, value: String)
        ensures
            final(self)@ == old(self)@.insert(key@, value@),
    {
        let ghost before = pair_texts(self.entries@);
        self.entries.push((key, value));
        proof {
            let after = pair_texts(self.entries@);
            assert(after.drop_last() =~= before);
        }
    }

    /// Position of the last entry with key `key`, if any.
    fn last_index_of(&self, key: &str) -> (r: Option<usize>)
        ensures
            match r {
                Some(j) => j < self.entries@.len() && self.entries@[j as int].0@ == key@ && forall|
                    i: int,
                | j < i < self.entries@.len() ==> (#[trigger] self.entries@[i]).0@ != key@,
                None => forall|i: int|
                    0 <= i < self.entries@.len() ==> (#[trigger] self.entries@[i]).0@ != key@,
            },
    {
        let mut i = self.entries.len();
        while i > 0
            invariant
                i <= self.entries@.len(),
                forall|m: int| i <= m < self.entries@.len() ==> (#[trigger] self.entries@[m]).0@
                    != key@,
            decreases i,
        {
            let k = str_chars(self.entries[i - 1].0.as_str());
            if chars_eq_str(&k, key) {
                return Some(i - 1);
            }
            i = i - 1;
        }
        None
    }

    /// The value at `key`, if there is one.
    pub fn get(&self, key: &str) -> (r: Option<String>)
        ensures
            match r {
                Some(v) => self@.contains_key(key@) && v@ == self@[key@],
                None => !self@.contains_key(key@),
            },
    {
        let ghost s = pair_texts(self.entries@);
        match self.last_index_of(key) {
            Some(j) => {
                proof {
                    assert forall|i: int| j < i < s.len() implies (#[trigger] s[i]).0 != key@ by {
                        assert(s[i].0 == self.entries@[i].0@);
                    }
                    lemma_entries_map_last(s, key@, j as int);
                }
                Some(self.entries[j].1.clone())
            },
            None => {
                proof {
                    assert forall|i: int| -1 < i < s.len() implies (#[trigger] s[i]).0 != key@ by {
                        assert(s[i].0 == self.entries@[i].0@);
                    }
                    lemma_entries_map_last(s, key@, -1);
                }
                None
            },
        }
    }

    /// Whether the map has a value at `key`.
    pub fn contains_key(&self, key: &str) -> (r: bool)
        ensures
            r == self@.contains_key(key@),
    {
        self.get(key).is_some()
    }
}


/// A key has a value exactly when some entry has that key.
pub proof fn lemma_entries_map_domain(s: Seq<(Seq<char>, Seq<char>)>, k: Seq<char>)
    ensures
        entries_map(s).contains_key(k) <==> exists|i: int| 0 <= i < s.len() && (#[trigger] s[i]).0 == k,
    decreases s.len(),
{
    if s.len() > 0 {
        lemma_entries_map_domain(s.drop_last(), k);
        if exists|i: int| 0 <= i < s.drop_last().len() && (#[trigger] s.drop_last()[i]).0 == k {
            let i = choose|i: int| 0 <= i < s.drop_last().len() && (#[trigger] s.drop_last()[i]).0 == k;
            assert(s[i] == s.drop_last()[i]);
        }
        if exists|i: int| 0 <= i < s.len() && (#[trigger] s[i]).0 == k {
            let i = choose|i: int| 0 <= i < s.len() && (#[trigger] s[i]).0 == k;
            if i < s.len() - 1 {
                assert(s.drop_last()[i] == s[i]);
            }
        }
    }
}

} // verus!
