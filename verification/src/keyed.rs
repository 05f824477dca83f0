//! A small map from string keys to values, kept as a vector of pairs with
//! each key once; its model is a `Map` from the keys' characters.
use vstd::prelude::*;
use crate::text;

verus! {

/// The map that a sequence of (key, value) pairs stands for, later pairs
/// overriding earlier ones.
pub open spec fn pairs_map<V>(s: Seq<(String, V)>) -> Map<Seq<char>, V>
    decreases s.len(),
{
    if s.len() == 0 {
        Map::empty()
    } else {
        pairs_map(s.drop_last()).insert(s.last().0@, s.last().1)
    }
}

/// No key occurs twice.
pub open spec fn keys_distinct<V>(s: Seq<(String, V)>) -> bool {
    forall|i: int, j: int|
        0 <= i < s.len() && 0 <= j < s.len() && i != j ==> (#[trigger] s[i]).0@ != (
        #[trigger] s[j]).0@
}

proof fn lemma_prefix_distinct<V>(s: Seq<(String, V)>)
    requires
        keys_distinct(s),
        s.len() > 0,
    ensures
        keys_distinct(s.drop_last()),
{
    let p = s.drop_last();
    assert forall|i: int, j: int|
        0 <= i < p.len() && 0 <= j < p.len() && i != j implies (#[trigger] p[i]).0@ != (
        #[trigger] p[j]).0@ by {
        assert(p[i] == s[i] && p[j] == s[j]);
    }
}

/// With distinct keys, each pair is found in the map, and every key of the
/// map comes from a pair.
pub proof fn lemma_pairs_lookup<V>(s: Seq<(String, V)>)
    requires
        keys_distinct(s),
    ensures
        forall|i: int|
            0 <= i < s.len() ==> pairs_map(s).contains_key((#[trigger] s[i]).0@)
                && pairs_map(s)[s[i].0@] == s[i].1,
        forall|k: Seq<char>|
            #[trigger] pairs_map(s).contains_key(k) ==> exists|i: int|
                0 <= i < s.len() && (#[trigger] s[i]).0@ == k,
    decreases s.len(),
{
    if s.len() > 0 {
        let p = s.drop_last();
        lemma_prefix_distinct(s);
        lemma_pairs_lookup(p);
        assert forall|i: int| 0 <= i < s.len() implies pairs_map(s).contains_key(
            (#[trigger] s[i]).0@,
        ) && pairs_map(s)[s[i].0@] == s[i].1 by {
            if i < s.len() - 1 {
                assert(p[i] == s[i]);
                assert(s[i].0@ != s[s.len() - 1].0@);
            }
        }
        assert forall|k: Seq<char>| #[trigger] pairs_map(s).contains_key(k) implies exists|
            i: int,
        | 0 <= i < s.len() && (#[trigger] s[i]).0@ == k by {
            if k == s.last().0@ {
                assert(s[s.len() - 1].0@ == k);
            } else {
                assert(pairs_map(p).contains_key(k));
                let i = choose|i: int| 0 <= i < p.len() && (#[trigger] p[i]).0@ == k;
                assert(s[i] == p[i]);
            }
        }
    }
}

/// With distinct keys, the map is finite and has one entry per pair.
pub proof fn lemma_pairs_len<V>(s: Seq<(String, V)>)
    requires
        keys_distinct(s),
    ensures
        pairs_map(s).dom().finite(),
        pairs_map(s).len() == s.len(),
    decreases s.len(),
{
    if s.len() > 0 {
        let p = s.drop_last();
        lemma_prefix_distinct(s);
        lemma_pairs_len(p);
        lemma_pairs_lookup(p);
        if pairs_map(p).contains_key(s.last().0@) {
            let i = choose|i: int| 0 <= i < p.len() && (#[trigger] p[i]).0@ == s.last().0@;
            assert(s[i] == p[i]);
            assert(s[i].0@ != s[s.len() - 1].0@);
        }
    }
}

proof fn lemma_pairs_update<V>(s: Seq<(String, V)>, i: int, k: String, v: V)
    requires
        keys_distinct(s),
        0 <= i < s.len(),
        s[i].0@ == k@,
    ensures
        keys_distinct(s.update(i, (k, v))),
        pairs_map(s.update(i, (k, v))) == pairs_map(s).insert(k@, v),
{
    let t = s.update(i, (k, v));
    assert forall|a: int, b: int|
        0 <= a < t.len() && 0 <= b < t.len() && a != b implies (#[trigger] t[a]).0@ != (
        #[trigger] t[b]).0@ by {
        assert(t[a].0@ == s[a].0@ && t[b].0@ == s[b].0@);
    }
    lemma_pairs_lookup(s);
    lemma_pairs_lookup(t);
    let m1 = pairs_map(t);
    let m2 = pairs_map(s).insert(k@, v);
    assert forall|q: Seq<char>| #[trigger] m1.contains_key(q) <==> m2.contains_key(q) by {
        if m1.contains_key(q) {
            let j = choose|j: int| 0 <= j < t.len() && (#[trigger] t[j]).0@ == q;
            if j != i {
                assert(s[j] == t[j]);
                assert(pairs_map(s).contains_key(s[j].0@));
            }
        }
        if m2.contains_key(q) {
            if q == k@ {
                assert(t[i].0@ == k@);
                assert(m1.contains_key(t[i].0@));
            } else {
                let j = choose|j: int| 0 <= j < s.len() && (#[trigger] s[j]).0@ == q;
                assert(t[j] == s[j]);
                assert(m1.contains_key(t[j].0@));
            }
        }
    }
    assert forall|q: Seq<char>| #[trigger] m1.contains_key(q) implies m1[q] == m2[q] by {
        let j = choose|j: int| 0 <= j < t.len() && (#[trigger] t[j]).0@ == q;
        if j != i {
            assert(s[j] == t[j]);
        }
    }
    assert(m1 =~= m2);
}

proof fn lemma_pairs_remove<V>(s: Seq<(String, V)>, i: int)
    requires
        keys_distinct(s),
        0 <= i < s.len(),
    ensures
        keys_distinct(s.remove(i)),
        pairs_map(s.remove(i)) == pairs_map(s).remove(s[i].0@),
{
    let t = s.remove(i);
    assert forall|a: int, b: int|
        0 <= a < t.len() && 0 <= b < t.len() && a != b implies (#[trigger] t[a]).0@ != (
        #[trigger] t[b]).0@ by {
        let a2 = if a < i {
            a
        } else {
            a + 1
        };
        let b2 = if b < i {
            b
        } else {
            b + 1
        };
        assert(t[a] == s[a2] && t[b] == s[b2]);
    }
    lemma_pairs_lookup(s);
    lemma_pairs_lookup(t);
    let m1 = pairs_map(t);
    let m2 = pairs_map(s).remove(s[i].0@);
    assert forall|q: Seq<char>| #[trigger] m1.contains_key(q) <==> m2.contains_key(q) by {
        if m1.contains_key(q) {
            let j = choose|j: int| 0 <= j < t.len() && (#[trigger] t[j]).0@ == q;
            let j2 = if j < i {
                j
            } else {
                j + 1
            };
            assert(t[j] == s[j2]);
        }
        if m2.contains_key(q) {
            let j = choose|j: int| 0 <= j < s.len() && (#[trigger] s[j]).0@ == q;
            assert(j != i);
            if j < i {
                assert(t[j] == s[j]);
            } else {
                assert(t[j - 1] == s[j]);
            }
        }
    }
    assert forall|q: Seq<char>| #[trigger] m1.contains_key(q) implies m1[q] == m2[q] by {
        let j = choose|j: int| 0 <= j < t.len() && (#[trigger] t[j]).0@ == q;
        let j2 = if j < i {
            j
        } else {
            j + 1
        };
        assert(t[j] == s[j2]);
    }
    assert(m1 =~= m2);
}

proof fn lemma_pairs_push<V>(s: Seq<(String, V)>, k: String, v: V)
    requires
        keys_distinct(s),
        !pairs_map(s).contains_key(k@),
    ensures
        keys_distinct(s.push((k, v))),
{
    let t = s.push((k, v));
    lemma_pairs_lookup(s);
    assert forall|a: int, b: int|
        0 <= a < t.len() && 0 <= b < t.len() && a != b implies (#[trigger] t[a]).0@ != (
        #[trigger] t[b]).0@ by {
        let n = s.len() as int;
        if a == n {
            assert(t[b] == s[b]);
            assert(pairs_map(s).contains_key(s[b].0@));
        } else if b == n {
            assert(t[a] == s[a]);
            assert(pairs_map(s).contains_key(s[a].0@));
        } else {
            assert(t[a] == s[a] && t[b] == s[b]);
        }
    }
}

/// Values under string keys, each key held once, in insertion order.
pub struct KeyedVec<V> {
    entries: Vec<(String, V)>,
}

impl<V> KeyedVec<V> {
    /// The map from keys to values.
    pub closed spec fn map(&self) -> Map<Seq<char>, V> {
        pairs_map(self.entries@)
    }

    /// The keys, in the order they were first inserted.
    pub closed spec fn keys(&self) -> Seq<Seq<char>> {
        self.entries@.map_values(|p: (String, V)| p.0@)
    }

    /// Each key is held once.
    pub closed spec fn wf(&self) -> bool {
        keys_distinct(self.entries@)
    }

    /// The keys are exactly those of the map, each once, and the map is
    /// finite with one entry per key.
    pub proof fn lemma_keys(&self)
        requires
            self.wf(),
        ensures
            self.keys().no_duplicates(),
            self.keys().to_set() == self.map().dom(),
            self.map().dom().finite(),
            self.map().len() == self.keys().len(),
    {
        lemma_pairs_len(self.entries@);
        lemma_pairs_lookup(self.entries@);
        let ks = self.keys();
        assert(ks.no_duplicates()) by {
            assert forall|i: int, j: int|
                0 <= i < ks.len() && 0 <= j < ks.len() && i != j implies ks[i] != ks[j] by {
                assert(ks[i] == self.entries@[i].0@ && ks[j] == self.entries@[j].0@);
            }
        }
        assert forall|q: Seq<char>| ks.to_set().contains(q) <==> self.map().dom().contains(q) by {
            if ks.to_set().contains(q) {
                let i = choose|i: int| 0 <= i < ks.len() && ks[i] == q;
                assert(ks[i] == self.entries@[i].0@);
            }
            if self.map().dom().contains(q) {
                let i = choose|i: int|
                    0 <= i < self.entries@.len() && (#[trigger] self.entries@[i]).0@ == q;
                assert(ks[i] == q);
            }
        }
        assert(ks.to_set() =~= self.map().dom());
    }

    /// An empty map.
    pub fn new() -> (r: Self)
        ensures
            r.wf(),
            r.map() == Map::<Seq<char>, V>::empty(),
            r.keys() == Seq::<Seq<char>>::empty(),
    {
        let r = KeyedVec { entries: Vec::new() };
        assert(r.keys() =~= Seq::<Seq<char>>::empty());
        r
    }

    /// The number of keys.
    pub fn len(&self) -> (r: usize)
        requires
            self.wf(),
        ensures
            r == self.map().len(),
            r == self.keys().len(),
    {
        proof {
            lemma_pairs_len(self.entries@);
        }
        self.entries.len()
    }

    /// The key at position `i` of the insertion order.
    pub fn key_at(&self, i: usize) -> (r: &String)
        requires
            i < self.keys().len(),
        ensures
            r@ == self.keys()[i as int],
    {
        &self.entries[i].0
    }

    fn position(&self, k: &str) -> (r: Option<usize>)
        requires
            self.wf(),
        ensures
            r matches Some(i) ==> i < self.entries@.len() && self.entries@[i as int].0@ == k@,
            r is None ==> !self.map().contains_key(k@),
    {
        proof {
            lemma_pairs_lookup(self.entries@);
        }
        let mut i: usize = 0;
        while i < self.entries.len()
            invariant
                i <= self.entries@.len(),
                forall|j: int| 0 <= j < i ==> (#[trigger] self.entries@[j]).0@ != k@,
            decreases self.entries@.len() - i,
        {
            if text::str_eq(self.entries[i].0.as_str(), k) {
                return Some(i);
            }
            i += 1;
        }
        None
    }

    /// Whether `k` is a key.
    pub fn contains_key(&self, k: &str) -> (r: bool)
        requires
            self.wf(),
        ensures
            r == self.map().contains_key(k@),
    {
        proof {
            lemma_pairs_lookup(self.entries@);
        }
        self.position(k).is_some()
    }

    /// The value under `k`.
    pub fn get(&self, k: &str) -> (r: Option<&V>)
        requires
            self.wf(),
        ensures
            r is None <==> !self.map().contains_key(k@),
            r matches Some(v) ==> *v == self.map()[k@],
    {
        proof {
            lemma_pairs_lookup(self.entries@);
        }
        match self.position(k) {
            Some(i) => Some(&self.entries[i].1),
            None => None,
        }
    }

    /// Puts `v` under `k`, replacing what `k` held; a new key goes last in
    /// the insertion order, a known one keeps its place.
    pub fn insert(&mut self, k: String, v: V)
        requires
            old(self).wf(),
        ensures
            final(self).wf(),
            final(self).map() == old(self).map().insert(k@, v),
            old(self).map().contains_key(k@) ==> final(self).keys() == old(self).keys(),
            !old(self).map().contains_key(k@) ==> final(self).keys() == old(self).keys().push(k@),
    {
        match self.position(k.as_str()) {
            Some(i) => {
                let ghost before = self.entries@;
                proof {
                    lemma_pairs_update(self.entries@, i as int, k, v);
                    lemma_pairs_lookup(before);
                }
                self.entries.set(i, (k, v));
                assert(self.keys() =~= old(self).keys());
            },
            None => {
                let ghost before = self.entries@;
                proof {
                    lemma_pairs_push(self.entries@, k, v);
                }
                self.entries.push((k, v));
                assert(self.entries@.drop_last() =~= before);
                assert(self.keys() =~= old(self).keys().push(k@));
            },
        }
    }

    /// Takes out the value under `k`, if any.
    pub fn remove(&mut self, k: &str) -> (r: Option<V>)
        requires
            old(self).wf(),
        ensures
            final(self).wf(),
            final(self).map() == old(self).map().remove(k@),
            r is None <==> !old(self).map().contains_key(k@),
            r matches Some(v) ==> v == old(self).map()[k@],
            r is None ==> final(self).keys() == old(self).keys(),
            r is Some ==> exists|i: int|
                0 <= i < old(self).keys().len() && old(self).keys()[i] == k@ && final(self).keys()
                    == old(self).keys().remove(i),
    {
        proof {
            lemma_pairs_lookup(self.entries@);
        }
        match self.position(k) {
            Some(i) => {
                let ghost before = self.entries@;
                proof {
                    lemma_pairs_remove(self.entries@, i as int);
                }
                let (_, v) = self.entries.remove(i);
                proof {
                    let ks = old(self).keys();
                    assert(ks[i as int] == k@);
                    assert(self.keys() =~= ks.remove(i as int));
                }
                Some(v)
            },
            None => {
                assert(self.map().remove(k@) =~= self.map());
                None
            },
        }
    }
}

/// The pairs of `s` whose value is not `v`, in order.
pub open spec fn kept_pairs(s: Seq<(String, String)>, v: Seq<char>) -> Seq<(String, String)>
    decreases s.len(),
{
    if s.len() == 0 {
        s
    } else {
        let r = kept_pairs(s.drop_last(), v);
        if s.last().1@ != v {
            r.push(s.last())
        } else {
            r
        }
    }
}

proof fn lemma_kept_pairs(s: Seq<(String, String)>, v: Seq<char>)
    requires
        keys_distinct(s),
    ensures
        keys_distinct(kept_pairs(s, v)),
        forall|k: Seq<char>|
            #[trigger] pairs_map(kept_pairs(s, v)).contains_key(k) <==> (pairs_map(s).contains_key(k)
                && pairs_map(s)[k]@ != v),
        forall|k: Seq<char>|
            #[trigger] pairs_map(kept_pairs(s, v)).contains_key(k) ==> pairs_map(kept_pairs(s, v))[k]
                == pairs_map(s)[k],
    decreases s.len(),
{
    if s.len() > 0 {
        let p = s.drop_last();
        let last = s.last();
        lemma_prefix_distinct(s);
        lemma_kept_pairs(p, v);
        lemma_pairs_lookup(p);
        assert(!pairs_map(p).contains_key(last.0@)) by {
            if pairs_map(p).contains_key(last.0@) {
                let i = choose|i: int| 0 <= i < p.len() && (#[trigger] p[i]).0@ == last.0@;
                assert(s[i] == p[i]);
                assert(s[s.len() - 1] == last);
            }
        }
        let kp = kept_pairs(p, v);
        let ks = kept_pairs(s, v);
        assert(pairs_map(s) == pairs_map(p).insert(last.0@, last.1));
        if last.1@ != v {
            lemma_pairs_push(kp, last.0, last.1);
            assert(kp.push((last.0, last.1)) == ks);
            assert(ks.drop_last() =~= kp);
            assert(pairs_map(ks) == pairs_map(kp).insert(last.0@, last.1));
        } else {
            assert(ks == kp);
        }
        assert forall|k: Seq<char>| #[trigger] pairs_map(ks).contains_key(k) <==> (
        pairs_map(s).contains_key(k) && pairs_map(s)[k]@ != v) by {
            if k != last.0@ {
                assert(pairs_map(kp).contains_key(k) <==> (pairs_map(p).contains_key(k)
                    && pairs_map(p)[k]@ != v));
            }
        }
        assert forall|k: Seq<char>| #[trigger] pairs_map(ks).contains_key(k) implies pairs_map(
            ks,
        )[k] == pairs_map(s)[k] by {
            if k != last.0@ {
                assert(pairs_map(kp).contains_key(k));
            }
        }
    }
}

impl KeyedVec<String> {
    /// The map from keys to the text of their values.
    pub open spec fn text_map(&self) -> Map<Seq<char>, Seq<char>> {
        self.map().map_values(|v: String| v@)
    }

    /// Puts the text `v` under `k`, as `insert` does.
    pub fn insert_text(&mut self, k: String, v: String)
        requires
            old(self).wf(),
        ensures
            final(self).wf(),
            final(self).text_map() == old(self).text_map().insert(k@, v@),
    {
        let ghost kv = k@;
        let ghost vv = v@;
        self.insert(k, v);
        assert(self.text_map() =~= old(self).text_map().insert(kv, vv));
    }

    /// Drops every key whose value is `v`.
    pub fn remove_values(&mut self, v: &str)
        requires
            old(self).wf(),
        ensures
            final(self).wf(),
            forall|k: Seq<char>|
                #[trigger] final(self).map().contains_key(k) <==> (old(self).map().contains_key(k)
                    && old(self).map()[k]@ != v@),
            forall|k: Seq<char>|
                #[trigger] final(self).map().contains_key(k) ==> final(self).map()[k] == old(
                    self,
                ).map()[k],
    {
        let mut out: Vec<(String, String)> = Vec::new();
        let mut i: usize = 0;
        while i < self.entries.len()
            invariant
                i <= self.entries@.len(),
                out@ == kept_pairs(self.entries@.subrange(0, i as int), v@),
            decreases self.entries@.len() - i,
        {
            assert(self.entries@.subrange(0, i + 1).drop_last() =~= self.entries@.subrange(
                0,
                i as int,
            ));
            if !text::str_eq(self.entries[i].1.as_str(), v) {
                let k = self.entries[i].0.clone();
                let w = self.entries[i].1.clone();
                out.push((k, w));
            }
            i += 1;
        }
        assert(self.entries@.subrange(0, i as int) =~= self.entries@);
        proof {
            lemma_kept_pairs(self.entries@, v@);
        }
        self.entries = out;
    }
}

} // verus!
