//! A string-keyed association with unique keys and last-write-wins insertion.
//!
//! This is the shared store shape of the bridge: response headers, cookie
//! jars, and the runtime's keyed registry are all maps from names to values.

use vstd::prelude::*;

verus! {

/// What a lookup of `k` finds in the association sequence `s`: the first
/// pair whose key equals `k`, if any.
pub open spec fn assoc_find<V>(s: Seq<(Seq<char>, V)>, k: Seq<char>) -> Option<V>
    decreases s.len(),
{
    if s.len() == 0 {
        None
    } else if s[0].0 == k {
        Some(s[0].1)
    } else {
        assoc_find(s.drop_first(), k)
    }
}

/// All keys in the association sequence are distinct.
pub open spec fn distinct_keys<V>(s: Seq<(Seq<char>, V)>) -> bool {
    forall|i: int, j: int| 0 <= i < j < s.len() ==> s[i].0 != s[j].0
}

/// A key is found exactly when some index holds it.
pub proof fn lemma_assoc_find_index<V>(s: Seq<(Seq<char>, V)>, k: Seq<char>)
    ensures
        assoc_find(s, k) is Some <==> exists|i: int| 0 <= i < s.len() && s[i].0 == k,
    decreases s.len(),
{
    if s.len() > 0 {
        lemma_assoc_find_index(s.drop_first(), k);
        if s[0].0 != k {
            if assoc_find(s, k) is Some {
                let i = choose|i: int| 0 <= i < s.drop_first().len() && s.drop_first()[i].0 == k;
                assert(s[i + 1].0 == k);
            }
            if exists|i: int| 0 <= i < s.len() && s[i].0 == k {
                let i = choose|i: int| 0 <= i < s.len() && s[i].0 == k;
                assert(s.drop_first()[i - 1].0 == k);
            }
        }
    }
}

/// Under distinct keys, the pair at any index is what lookup of its key finds.
pub proof fn lemma_assoc_find_at<V>(s: Seq<(Seq<char>, V)>, i: int)
    requires
        distinct_keys(s),
        0 <= i < s.len(),
    ensures
        assoc_find(s, s[i].0) == Some(s[i].1),
    decreases s.len(),
{
    if i > 0 {
        assert(s[0].0 != s[i].0);
        lemma_distinct_drop_first(s);
        lemma_assoc_find_at(s.drop_first(), i - 1);
        assert(s.drop_first()[i - 1] == s[i]);
    }
}

proof fn lemma_distinct_drop_first<V>(s: Seq<(Seq<char>, V)>)
    requires
        distinct_keys(s),
        s.len() > 0,
    ensures
        distinct_keys(s.drop_first()),
{
    let t = s.drop_first();
    assert forall|p: int, q: int| 0 <= p < q < t.len() implies t[p].0 != t[q].0 by {
        assert(t[p] == s[p + 1]);
        assert(t[q] == s[q + 1]);
    }
}

/// Updating index `i` to a new value under the same key changes exactly that
/// key's lookup.
proof fn lemma_assoc_update_other<V>(s: Seq<(Seq<char>, V)>, i: int, v: V, k2: Seq<char>)
    requires
        0 <= i < s.len(),
        k2 != s[i].0,
    ensures
        assoc_find(s.update(i, (s[i].0, v)), k2) == assoc_find(s, k2),
    decreases s.len(),
{
    let t = s.update(i, (s[i].0, v));
    if i == 0 {
        assert(t[0].0 == s[0].0);
        assert(t.drop_first() =~= s.drop_first());
    } else {
        assert(t[0] == s[0]);
        if k2 != s[0].0 {
            lemma_assoc_update_other(s.drop_first(), i - 1, v, k2);
            assert(s.drop_first()[i - 1] == s[i]);
            assert(t.drop_first() =~= s.drop_first().update(i - 1, (s[i].0, v)));
        }
    }
}

proof fn lemma_assoc_update<V>(s: Seq<(Seq<char>, V)>, i: int, v: V)
    requires
        distinct_keys(s),
        0 <= i < s.len(),
    ensures
        distinct_keys(s.update(i, (s[i].0, v))),
        assoc_find(s.update(i, (s[i].0, v)), s[i].0) == Some(v),
        forall|k2: Seq<char>|
            k2 != s[i].0 ==> assoc_find(s.update(i, (s[i].0, v)), k2) == assoc_find(s, k2),
{
    let t = s.update(i, (s[i].0, v));
    assert forall|j: int| 0 <= j < s.len() implies t[j].0 == s[j].0 by {
        if j != i {
            assert(t[j] == s[j]);
        }
    }
    assert forall|p: int, q: int| 0 <= p < q < t.len() implies t[p].0 != t[q].0 by {
        assert(t[p].0 == s[p].0);
        assert(t[q].0 == s[q].0);
    }
    assert forall|j: int| 0 <= j < t.len() implies t[j] == (t[j].0, t[j].1) by {}
    assert(t[i] == (s[i].0, v));
    lemma_assoc_find_at(t, i);
    assert forall|k2: Seq<char>|
        k2 != s[i].0 implies assoc_find(t, k2) == assoc_find(s, k2) by {
        lemma_assoc_update_other(s, i, v, k2);
    }
}

/// Appending a pair leaves every other key's lookup unchanged.
proof fn lemma_assoc_push_other<V>(s: Seq<(Seq<char>, V)>, k: Seq<char>, v: V, k2: Seq<char>)
    requires
        k2 != k,
    ensures
        assoc_find(s.push((k, v)), k2) == assoc_find(s, k2),
    decreases s.len(),
{
    let t = s.push((k, v));
    if s.len() == 0 {
        assert(t[0].0 == k);
        assert(t.drop_first() =~= Seq::<(Seq<char>, V)>::empty());
        assert(assoc_find(t.drop_first(), k2) is None);
    } else {
        assert(t[0] == s[0]);
        if k2 != s[0].0 {
            lemma_assoc_push_other(s.drop_first(), k, v, k2);
            assert(t.drop_first() =~= s.drop_first().push((k, v)));
            assert(assoc_find(t, k2) == assoc_find(t.drop_first(), k2));
            assert(assoc_find(s, k2) == assoc_find(s.drop_first(), k2));
        }
    }
}

/// Appending a fresh key finds the new pair and leaves other lookups unchanged.
proof fn lemma_assoc_push<V>(s: Seq<(Seq<char>, V)>, k: Seq<char>, v: V)
    requires
        distinct_keys(s),
        assoc_find(s, k) is None,
    ensures
        distinct_keys(s.push((k, v))),
        assoc_find(s.push((k, v)), k) == Some(v),
        forall|k2: Seq<char>| k2 != k ==> assoc_find(s.push((k, v)), k2) == assoc_find(s, k2),
{
    let t = s.push((k, v));
    lemma_assoc_find_index(s, k);
    assert forall|p: int, q: int| 0 <= p < q < t.len() implies t[p].0 != t[q].0 by {
        assert(t[p] == s[p]);
        if q == s.len() {
            assert(t[q].0 == k);
        } else {
            assert(t[q] == s[q]);
        }
    }
    assert(t[s.len() as int] == (k, v));
    lemma_assoc_find_at(t, s.len() as int);
    assert forall|k2: Seq<char>| k2 != k implies assoc_find(t, k2) == assoc_find(s, k2) by {
        lemma_assoc_push_other(s, k, v, k2);
    }
}

/// Removing the pair at index `i` leaves every other key's lookup unchanged.
proof fn lemma_assoc_remove_other<V>(s: Seq<(Seq<char>, V)>, i: int, k2: Seq<char>)
    requires
        0 <= i < s.len(),
        k2 != s[i].0,
    ensures
        assoc_find(s.remove(i), k2) == assoc_find(s, k2),
    decreases s.len(),
{
    let t = s.remove(i);
    s.remove_ensures(i);
    if i == 0 {
        assert(t =~= s.drop_first());
    } else {
        assert(t[0] == s[0]);
        if k2 != s[0].0 {
            lemma_assoc_remove_other(s.drop_first(), i - 1, k2);
            assert(s.drop_first()[i - 1] == s[i]);
            assert(t.drop_first() =~= s.drop_first().remove(i - 1));
        }
    }
}

/// Removing index `i` erases exactly that key's lookup.
proof fn lemma_assoc_remove<V>(s: Seq<(Seq<char>, V)>, i: int)
    requires
        distinct_keys(s),
        0 <= i < s.len(),
    ensures
        distinct_keys(s.remove(i)),
        assoc_find(s.remove(i), s[i].0) is None,
        forall|k2: Seq<char>| k2 != s[i].0 ==> assoc_find(s.remove(i), k2) == assoc_find(s, k2),
{
    let t = s.remove(i);
    s.remove_ensures(i);
    assert forall|p: int, q: int| 0 <= p < q < t.len() implies t[p].0 != t[q].0 by {
        let sp: int = if p < i { p } else { p + 1 };
        let sq: int = if q < i { q } else { q + 1 };
        assert(t[p] == s[sp]);
        assert(t[q] == s[sq]);
    }
    assert forall|j: int| 0 <= j < t.len() implies t[j].0 != s[i].0 by {
        let sj: int = if j < i { j } else { j + 1 };
        assert(t[j] == s[sj]);
    }
    lemma_assoc_find_index(t, s[i].0);
    assert forall|k2: Seq<char>|
        k2 != s[i].0 implies assoc_find(t, k2) == assoc_find(s, k2) by {
        lemma_assoc_remove_other(s, i, k2);
    }
}

/// A string-keyed map stored as an association list with distinct keys.
pub struct StringMap<V> {
    entries: Vec<(String, V)>,
}

impl<V> View for StringMap<V> {
    type V = Seq<(Seq<char>, V)>;

    closed spec fn view(&self) -> Seq<(Seq<char>, V)> {
        self.entries@.map_values(|p: (String, V)| (p.0@, p.1))
    }
}

impl<V> StringMap<V> {
    /// The keys of the map are distinct; constructors establish this and
    /// all operations preserve it.
    pub open spec fn wf(&self) -> bool {
        distinct_keys(self@)
    }

    /// What lookup of `k` finds in the map.
    pub open spec fn spec_get(&self, k: Seq<char>) -> Option<V> {
        assoc_find(self@, k)
    }

    pub open spec fn contains_key(&self, k: Seq<char>) -> bool {
        self.spec_get(k) is Some
    }

    pub fn new() -> (r: StringMap<V>)
        ensures
            r.wf(),
            r@ == Seq::<(Seq<char>, V)>::empty(),
    {
        StringMap { entries: Vec::new() }
    }

    pub fn len(&self) -> (n: usize)
        ensures
            n == self@.len(),
    {
        self.entries.len()
    }

    /// The position of the entry whose key is `k`, if one exists.
    fn find_index(&self, k: &String) -> (r: Option<usize>)
        ensures
            match r {
                Some(i) => i < self@.len() && self@[i as int].0 == k@,
                None => !self.contains_key(k@),
            },
    {
        let n = self.entries.len();
        for i in 0..n
            invariant
                n == self@.len(),
                n == self.entries@.len(),
                forall|j: int| 0 <= j < n ==> #[trigger] self@[j].0 == self.entries@[j].0@,
                forall|j: int| 0 <= j < i ==> self@[j].0 != k@,
        {
            if self.entries[i].0.eq(k) {
                return Some(i);
            }
        }
        proof {
            lemma_assoc_find_index(self@, k@);
        }
        None
    }

    pub fn get(&self, k: &String) -> (r: Option<&V>)
        requires
            self.wf(),
        ensures
            match r {
                Some(v) => self.spec_get(k@) == Some(*v),
                None => self.spec_get(k@) is None,
            },
    {
        match self.find_index(k) {
            Some(i) => {
                proof {
                    lemma_assoc_find_at(self@, i as int);
                }
                Some(&self.entries[i].1)
            },
            None => None,
        }
    }

    pub fn contains(&self, k: &String) -> (r: bool)
        requires
            self.wf(),
        ensures
            r == self.contains_key(k@),
    {
        self.get(k).is_some()
    }

    /// Insert `v` under `k`: an existing entry for `k` is replaced in place,
    /// otherwise the pair is appended. Lookups of every other key are unchanged.
    pub fn insert(&mut self, k: String, v: V)
        requires
            old(self).wf(),
        ensures
            final(self).wf(),
            final(self).spec_get(k@) == Some(v),
            forall|k2: Seq<char>|
                k2 != k@ ==> final(self).spec_get(k2) == old(self).spec_get(k2),
            final(self)@.len() <= old(self)@.len() + 1,
    {
        match self.find_index(&k) {
            Some(i) => {
                let ghost old_seq = self@;
                let mut entry = self.entries.remove(i);
                entry.1 = v;
                self.entries.insert(i, entry);
                proof {
                    assert(self@ =~= old_seq.update(i as int, (k@, v)));
                    lemma_assoc_update(old_seq, i as int, v);
                }
            },
            None => {
                let ghost old_seq = self@;
                self.entries.push((k, v));
                proof {
                    assert(self@ =~= old_seq.push((k@, v)));
                    lemma_assoc_push(old_seq, k@, v);
                }
            },
        }
    }

    /// Remove the entry for `k`, if any. Lookups of every other key are unchanged.
    pub fn remove(&mut self, k: &String)
        requires
            old(self).wf(),
        ensures
            final(self).wf(),
            final(self).spec_get(k@) is None,
            forall|k2: Seq<char>|
                k2 != k@ ==> final(self).spec_get(k2) == old(self).spec_get(k2),
    {
        match self.find_index(k) {
            Some(i) => {
                let ghost old_seq = self@;
                let _ = self.entries.remove(i);
                proof {
                    assert(self@ =~= old_seq.remove(i as int));
                    lemma_assoc_remove(old_seq, i as int);
                    lemma_assoc_find_index(self@, k@);
                }
            },
            None => {},
        }
    }

    /// The key-value pair at storage position `i`.
    pub fn entry_at(&self, i: usize) -> (r: (&String, &V))
        requires
            i < self@.len(),
        ensures
            r.0@ == self@[i as int].0,
            *r.1 == self@[i as int].1,
    {
        (&self.entries[i].0, &self.entries[i].1)
    }
}

} // verus!
