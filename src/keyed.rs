//! A map from strings to values, kept as a list of entries with distinct
//! keys.

use vstd::prelude::*;

verus! {

/// One entry of a [`KeyedMap`].
pub struct KeyedEntry<V> {
    pub key: String,
    pub value: V,
}

/// The map that a list of entries describes: a later entry for a key wins,
/// though a well-formed list has one entry per key.
pub open spec fn map_of<V>(s: Seq<KeyedEntry<V>>) -> Map<Seq<char>, V>
    decreases s.len(),
{
    if s.len() == 0 {
        Map::empty()
    } else {
        map_of(s.drop_last()).insert(s.last().key@, s.last().value)
    }
}

/// No two entries have the same key.
pub open spec fn keys_distinct<V>(s: Seq<KeyedEntry<V>>) -> bool {
    forall|i: int, j: int|
        0 <= i < j < s.len() ==> (#[trigger] s[i]).key@ != (#[trigger] s[j]).key@
}

proof fn lemma_map_of_keys<V>(s: Seq<KeyedEntry<V>>, k: Seq<char>)
    requires
        keys_distinct(s),
    ensures
        map_of(s).contains_key(k) <==> exists|i: int| 0 <= i < s.len() && (#[trigger] s[i]).key@ == k,
        forall|i: int| 0 <= i < s.len() && (#[trigger] s[i]).key@ == k ==> map_of(s)[k] == s[i].value,
    decreases s.len(),
{
    if s.len() > 0 {
        let t = s.drop_last();
        assert(keys_distinct(t));
        lemma_map_of_keys(t, k);
        if map_of(s).contains_key(k) && s.last().key@ != k {
            let i = choose|i: int| 0 <= i < t.len() && (#[trigger] t[i]).key@ == k;
            assert(s[i] == t[i]);
        }
        assert forall|i: int| 0 <= i < s.len() && (#[trigger] s[i]).key@ == k implies map_of(
            s,
        )[k] == s[i].value by {
            if i < s.len() - 1 {
                assert(s[i] == t[i]);
                assert(s.last().key@ != k);
            }
        }
        if exists|i: int| 0 <= i < s.len() && (#[trigger] s[i]).key@ == k {
            let i = choose|i: int| 0 <= i < s.len() && (#[trigger] s[i]).key@ == k;
            if i < s.len() - 1 {
                assert(t[i] == s[i]);
            }
        }
    }
}

proof fn lemma_map_of_remove<V>(s: Seq<KeyedEntry<V>>, i: int)
    requires
        keys_distinct(s),
        0 <= i < s.len(),
    ensures
        keys_distinct(s.remove(i)),
        map_of(s.remove(i)) == map_of(s).remove(s[i].key@),
    decreases s.len(),
{
    let t = s.drop_last();
    let k = s[i].key@;
    if i == s.len() - 1 {
        assert(s.remove(i) =~= t);
        lemma_map_of_keys(t, k);
        assert forall|j: int| 0 <= j < t.len() implies (#[trigger] t[j]).key@ != k by {
            assert(t[j] == s[j]);
        }
        assert(map_of(s.remove(i)) =~= map_of(s).remove(k));
    } else {
        assert(keys_distinct(t));
        lemma_map_of_remove(t, i);
        assert(s.remove(i) =~= t.remove(i).push(s.last()));
        assert(s.remove(i).drop_last() =~= t.remove(i));
        assert(s[i] == t[i]);
        assert(s.last().key@ != k);
        assert(map_of(s.remove(i)) =~= map_of(s).remove(k));
    }
}

/// A map from strings to values.
pub struct KeyedMap<V> {
    entries: Vec<KeyedEntry<V>>,
}

impl<V> View for KeyedMap<V> {
    type V = Map<Seq<char>, V>;

    closed spec fn view(&self) -> Map<Seq<char>, V> {
        map_of(self.entries@)
    }
}

impl<V> KeyedMap<V> {
    /// Well-formedness: one entry per key.
    pub closed spec fn wf(&self) -> bool {
        keys_distinct(self.entries@)
    }

    /// The empty map.
    pub fn new() -> (r: Self)
        ensures
            r.wf(),
            r@ == Map::<Seq<char>, V>::empty(),
    {
        KeyedMap { entries: Vec::new() }
    }

    fn position(&self, key: &str) -> (r: Option<usize>)
        requires
            self.wf(),
        ensures
            match r {
                Some(i) => i < self.entries@.len() && self.entries@[i as int].key@ == key@
                    && self@.contains_key(key@) && self@[key@] == self.entries@[i as int].value,
                None => !self@.contains_key(key@),
            },
    {
        proof {
            lemma_map_of_keys(self.entries@, key@);
        }
        let k = String::from_str(key);
        let mut i: usize = 0;
        while i < self.entries.len()
            invariant
                i <= self.entries@.len(),
                keys_distinct(self.entries@),
                k@ == key@,
                forall|j: int| 0 <= j < i ==> (#[trigger] self.entries@[j]).key@ != key@,
            decreases self.entries@.len() - i,
        {
            if self.entries[i].key == k {
                proof {
                    lemma_map_of_keys(self.entries@, key@);
                }
                return Some(i);
            }
            i = i + 1;
        }
        None
    }

    /// Whether `key` has a value.
    pub fn contains_key(&self, key: &str) -> (r: bool)
        requires
            self.wf(),
        ensures
            r == self@.contains_key(key@),
    {
        self.position(key).is_some()
    }

    /// The value of `key`, if any.
    pub fn get(&self, key: &str) -> (r: Option<&V>)
        requires
            self.wf(),
        ensures
            match r {
                Some(v) => self@.contains_key(key@) && *v == self@[key@],
                None => !self@.contains_key(key@),
            },
    {
        match self.position(key) {
            Some(i) => Some(&self.entries[i].value),
            None => None,
        }
    }

    /// How many entries hold `key`: one if it has a value, else none.
    pub fn count_key(&self, key: &str) -> (r: usize)
        requires
            self.wf(),
        ensures
            r == if self@.contains_key(key@) {
                1usize
            } else {
                0usize
            },
    {
        proof {
            lemma_map_of_keys(self.entries@, key@);
        }
        let k = String::from_str(key);
        let mut count: usize = 0;
        let mut i: usize = 0;
        while i < self.entries.len()
            invariant
                i <= self.entries@.len(),
                keys_distinct(self.entries@),
                k@ == key@,
                count <= 1,
                count == 0 <==> forall|j: int|
                    0 <= j < i ==> (#[trigger] self.entries@[j]).key@ != key@,
                count == 1 ==> exists|j: int|
                    0 <= j < i && (#[trigger] self.entries@[j]).key@ == key@,
            decreases self.entries@.len() - i,
        {
            if self.entries[i].key == k {
                proof {
                    if count == 1 {
                        let j = choose|j: int|
                            0 <= j < i && (#[trigger] self.entries@[j]).key@ == key@;
                        assert(self.entries@[j].key@ != self.entries@[i as int].key@);
                    }
                }
                assert(self.entries@[i as int].key@ == key@);
                count = 1;
            } else {
                assert(self.entries@[i as int].key@ != key@);
            }
            i = i + 1;
        }
        count
    }

    /// Removes the value of `key` and hands it back.
    pub fn remove(&mut self, key: &str) -> (r: Option<V>)
        requires
            old(self).wf(),
        ensures
            final(self).wf(),
            final(self)@ == old(self)@.remove(key@),
            match r {
                Some(v) => old(self)@.contains_key(key@) && v == old(self)@[key@],
                None => !old(self)@.contains_key(key@) && final(self)@ == old(self)@,
            },
    {
        match self.position(key) {
            Some(i) => {
                proof {
                    lemma_map_of_remove(self.entries@, i as int);
                }
                let e = self.entries.remove(i);
                Some(e.value)
            },
            None => {
                assert(self@.remove(key@) =~= self@);
                None
            },
        }
    }

    /// Sets the value of `key`, handing back the value it replaces.
    pub fn insert(&mut self, key: &str, value: V) -> (r: Option<V>)
        requires
            old(self).wf(),
        ensures
            final(self).wf(),
            final(self)@ == old(self)@.insert(key@, value),
            match r {
                Some(v) => old(self)@.contains_key(key@) && v == old(self)@[key@],
                None => !old(self)@.contains_key(key@),
            },
    {
        let old_value = self.remove(key);
        let ghost before = self.entries@;
        proof {
            lemma_map_of_keys(before, key@);
        }
        self.entries.push(KeyedEntry { key: String::from_str(key), value });
        proof {
            assert(self.entries@.drop_last() =~= before);
            assert forall|i: int, j: int| 0 <= i < j < self.entries@.len() implies (
            #[trigger] self.entries@[i]).key@ != (#[trigger] self.entries@[j]).key@ by {
                assert(self.entries@[i] == before[i]);
                if j < before.len() {
                    assert(self.entries@[j] == before[j]);
                }
            }
            assert(self@ =~= old(self)@.insert(key@, value));
        }
        old_value
    }
}

} // verus!
