use vstd::prelude::*;

verus! {

/// A keyed store held as a list of `(key, value)` entries with distinct keys.
/// Keys are compared by their text; the entry order carries no meaning.
pub struct Store<V> {
    pub entries: Vec<(String, V)>,
}

/// Whether some entry of `s` has the key `k`.
pub open spec fn has_key<V>(s: Seq<(String, V)>, k: Seq<char>) -> bool {
    exists|i: int| 0 <= i < s.len() && #[trigger] s[i].0@ == k
}

/// The value stored under `k` in `s`, when some entry has that key.
pub open spec fn value_at<V>(s: Seq<(String, V)>, k: Seq<char>) -> V {
    s[choose|i: int| 0 <= i < s.len() && #[trigger] s[i].0@ == k].1
}

/// No two entries share a key.
pub open spec fn distinct_keys<V>(s: Seq<(String, V)>) -> bool {
    forall|i: int, j: int|
        0 <= i < s.len() && 0 <= j < s.len() && #[trigger] s[i].0@ == #[trigger] s[j].0@ ==> i
            == j
}

/// The map that a list of entries with distinct keys denotes.
pub open spec fn map_of<V>(s: Seq<(String, V)>) -> Map<Seq<char>, V> {
    Map::new(|k: Seq<char>| has_key(s, k), |k: Seq<char>| value_at(s, k))
}

proof fn lemma_value_at<V>(s: Seq<(String, V)>, i: int)
    requires
        distinct_keys(s),
        0 <= i < s.len(),
    ensures
        has_key(s, s[i].0@),
        value_at(s, s[i].0@) == s[i].1,
        map_of(s).contains_key(s[i].0@),
        map_of(s)[s[i].0@] == s[i].1,
{
    let k = s[i].0@;
    assert(has_key(s, k));
    let j = choose|j: int| 0 <= j < s.len() && #[trigger] s[j].0@ == k;
    assert(i == j);
}

impl<V> View for Store<V> {
    type V = Map<Seq<char>, V>;

    open spec fn view(&self) -> Map<Seq<char>, V> {
        map_of(self.entries@)
    }
}

impl<V> Store<V> {
    /// The entries have distinct keys.
    pub open spec fn wf(&self) -> bool {
        distinct_keys(self.entries@)
    }

    /// An empty store.
    pub fn new() -> (r: Self)
        ensures
            r.wf(),
            r@ == Map::<Seq<char>, V>::empty(),
    {
        let r = Store { entries: Vec::new() };
        assert(r@ =~= Map::<Seq<char>, V>::empty());
        r
    }

    /// The position of the entry with key `k`, if there is one.
    fn position(&self, k: &String) -> (r: Option<usize>)
        requires
            self.wf(),
        ensures
            match r {
                Some(i) => i < self.entries@.len() && self.entries@[i as int].0@ == k@,
                None => !self@.contains_key(k@),
            },
    {
        let mut i: usize = 0;
        while i < self.entries.len()
            invariant
                i <= self.entries@.len(),
                forall|j: int| 0 <= j < i ==> self.entries@[j].0@ != k@,
            decreases self.entries@.len() - i,
        {
            if self.entries[i].0 == *k {
                return Some(i);
            }
            i = i + 1;
        }
        None
    }

    /// Whether some value is stored under `k`.
    pub fn contains(&self, k: &String) -> (r: bool)
        requires
            self.wf(),
        ensures
            r == self@.contains_key(k@),
    {
        match self.position(k) {
            Some(i) => {
                proof {
                    lemma_value_at(self.entries@, i as int);
                }
                true
            },
            None => false,
        }
    }

    /// The value stored under `k`, if any.
    pub fn get(&self, k: &String) -> (r: Option<&V>)
        requires
            self.wf(),
        ensures
            match r {
                Some(v) => self@.contains_key(k@) && *v == self@[k@],
                None => !self@.contains_key(k@),
            },
    {
        match self.position(k) {
            Some(i) => {
                proof {
                    lemma_value_at(self.entries@, i as int);
                }
                Some(&self.entries[i].1)
            },
            None => None,
        }
    }

    /// Removes the value stored under `k` and hands it back.
    pub fn take(&mut self, k: &String) -> (r: Option<V>)
        requires
            old(self).wf(),
        ensures
            final(self).wf(),
            final(self)@ == old(self)@.remove(k@),
            match r {
                Some(v) => old(self)@.contains_key(k@) && v == old(self)@[k@],
                None => !old(self)@.contains_key(k@),
            },
    {
        match self.position(k) {
            Some(i) => {
                let ghost s = self.entries@;
                proof {
                    lemma_value_at(s, i as int);
                }
                let e = self.entries.remove(i);
                let ghost t = self.entries@;
                assert(t =~= s.remove(i as int));
                assert forall|a: int, b: int|
                    0 <= a < t.len() && 0 <= b < t.len() && #[trigger] t[a].0@ == #[trigger] t[b].0@
                    implies a == b by {
                    let a1 = if a < i { a } else { a + 1 };
                    let b1 = if b < i { b } else { b + 1 };
                    assert(t[a] == s[a1]);
                    assert(t[b] == s[b1]);
                }
                assert forall|key: Seq<char>| #[trigger] has_key(t, key) == (has_key(s, key) && key != k@) by {
                    if has_key(t, key) {
                        let a = choose|a: int| 0 <= a < t.len() && #[trigger] t[a].0@ == key;
                        let a1 = if a < i { a } else { a + 1 };
                        assert(t[a] == s[a1]);
                        assert(a1 != i);
                    }
                    if has_key(s, key) && key != k@ {
                        let a = choose|a: int| 0 <= a < s.len() && #[trigger] s[a].0@ == key;
                        assert(a != i);
                        let a0 = if a < i { a } else { a - 1 };
                        assert(t[a0] == s[a]);
                    }
                }
                assert forall|key: Seq<char>| #[trigger] has_key(t, key) implies value_at(t, key) == value_at(s, key) by {
                    let a = choose|a: int| 0 <= a < t.len() && #[trigger] t[a].0@ == key;
                    let a1 = if a < i { a } else { a + 1 };
                    assert(t[a] == s[a1]);
                    lemma_value_at(t, a);
                    lemma_value_at(s, a1);
                }
                assert(self@ =~= old(self)@.remove(k@));
                Some(e.1)
            },
            None => {
                assert(self@ =~= old(self)@.remove(k@));
                None
            },
        }
    }

    /// Stores `v` under `k`, replacing what was there.
    pub fn put(&mut self, k: String, v: V)
        requires
            old(self).wf(),
        ensures
            final(self).wf(),
            final(self)@ == old(self)@.insert(k@, v),
    {
        let _ = self.take(&k);
        let ghost s = self.entries@;
        let ghost key = k@;
        self.entries.push((k, v));
        let ghost t = self.entries@;
        assert(t =~= s.push((t[s.len() as int].0, v)));
        assert(!map_of(s).contains_key(key));
        assert(!has_key(s, key));
        assert forall|a: int, b: int|
            0 <= a < t.len() && 0 <= b < t.len() && #[trigger] t[a].0@ == #[trigger] t[b].0@
            implies a == b by {
            if a < s.len() && b == s.len() {
                assert(s[a].0@ == key);
            }
            if b < s.len() && a == s.len() {
                assert(s[b].0@ == key);
            }
        }
        proof {
            lemma_value_at(t, s.len() as int);
        }
        assert forall|key2: Seq<char>| #[trigger] has_key(t, key2) == (has_key(s, key2) || key2 == key) by {
            if has_key(s, key2) {
                let a = choose|a: int| 0 <= a < s.len() && #[trigger] s[a].0@ == key2;
                assert(t[a] == s[a]);
            }
            if has_key(t, key2) && key2 != key {
                let a = choose|a: int| 0 <= a < t.len() && #[trigger] t[a].0@ == key2;
                assert(t[a] == s[a]);
            }
        }
        assert forall|key2: Seq<char>| #[trigger] has_key(s, key2) implies value_at(t, key2) == value_at(s, key2) by {
            let a = choose|a: int| 0 <= a < s.len() && #[trigger] s[a].0@ == key2;
            assert(t[a] == s[a]);
            lemma_value_at(t, a);
            lemma_value_at(s, a);
        }
        assert(self@ =~= old(self)@.remove(key).insert(key, v));
        assert(old(self)@.remove(key).insert(key, v) =~= old(self)@.insert(key, v));
    }
}

} // verus!
