//! A map from text keys to values that keeps its entries in insertion order.
//! Lookups, updates and removals behave as a hash map's do, and walking the
//! entries visits each key once, in the order in which it was first
//! inserted.
use vstd::prelude::*;
use crate::text::str_eq;

verus! {

/// The position of the first entry with key `k`, or -1.
pub open spec fn index_of_key<W>(e: Seq<(Seq<char>, W)>, k: Seq<char>) -> int
    decreases e.len(),
{
    if e.len() == 0 {
        -1
    } else if e[0].0 == k {
        0
    } else {
        let j = index_of_key(e.drop_first(), k);
        if j < 0 { -1 } else { j + 1 }
    }
}

/// The value stored under `k`.
pub open spec fn lookup<W>(e: Seq<(Seq<char>, W)>, k: Seq<char>) -> Option<W> {
    let i = index_of_key(e, k);
    if i < 0 { None } else { Some(e[i].1) }
}

/// The entries after storing `v` under `k`: an existing entry keeps its
/// place and takes the new value; a new key goes to the end.
pub open spec fn inserted<W>(e: Seq<(Seq<char>, W)>, k: Seq<char>, v: W) -> Seq<(Seq<char>, W)> {
    let i = index_of_key(e, k);
    if i < 0 { e.push((k, v)) } else { e.update(i, (k, v)) }
}

/// The entries after removing key `k`.
pub open spec fn removed<W>(e: Seq<(Seq<char>, W)>, k: Seq<char>) -> Seq<(Seq<char>, W)> {
    let i = index_of_key(e, k);
    if i < 0 { e } else { e.remove(i) }
}

/// The entries after storing each pair of `pairs` in turn.
pub open spec fn insert_all<W>(e: Seq<(Seq<char>, W)>, pairs: Seq<(Seq<char>, W)>) -> Seq<(Seq<char>, W)>
    decreases pairs.len(),
{
    if pairs.len() == 0 {
        e
    } else {
        inserted(insert_all(e, pairs.drop_last()), pairs.last().0, pairs.last().1)
    }
}

/// No key occurs twice.
pub open spec fn unique_keys<W>(e: Seq<(Seq<char>, W)>) -> bool {
    forall|i: int, j: int| 0 <= i < e.len() && 0 <= j < e.len() && i != j ==> e[i].0 != e[j].0
}

/// The keys, in entry order.
pub open spec fn keys_of<W>(e: Seq<(Seq<char>, W)>) -> Seq<Seq<char>> {
    e.map_values(|p: (Seq<char>, W)| p.0)
}

/// The entries read as a mathematical map.
pub open spec fn as_map<W>(e: Seq<(Seq<char>, W)>) -> Map<Seq<char>, W> {
    Map::new(|k: Seq<char>| index_of_key(e, k) >= 0, |k: Seq<char>| e[index_of_key(e, k)].1)
}

pub proof fn lemma_index_of_key<W>(e: Seq<(Seq<char>, W)>, k: Seq<char>)
    ensures
        -1 <= index_of_key(e, k) < e.len(),
        index_of_key(e, k) >= 0 ==> e[index_of_key(e, k)].0 == k,
        forall|j: int| 0 <= j < index_of_key(e, k) ==> #[trigger] e[j].0 != k,
        index_of_key(e, k) < 0 ==> forall|j: int| 0 <= j < e.len() ==> #[trigger] e[j].0 != k,
    decreases e.len(),
{
    if e.len() > 0 && e[0].0 != k {
        lemma_index_of_key(e.drop_first(), k);
        assert forall|j: int| 0 < j < e.len() implies #[trigger] e[j] == e.drop_first()[j - 1] by {}
    }
}

/// When every entry before `i` has another key and entry `i` has `k`, `i` is
/// the first index of `k`; when no entry has `k`, there is none.
pub proof fn lemma_index_of_key_is<W>(e: Seq<(Seq<char>, W)>, k: Seq<char>, i: int)
    requires
        -1 <= i < e.len(),
        i >= 0 ==> e[i].0 == k,
        forall|j: int| 0 <= j < e.len() && (i < 0 || j < i) ==> #[trigger] e[j].0 != k,
    ensures
        index_of_key(e, k) == i,
{
    lemma_index_of_key(e, k);
    let f = index_of_key(e, k);
    if f >= 0 && (i < 0 || f < i) {
        assert(e[f].0 != k);
    }
    if i >= 0 && f < 0 {
        assert(e[i].0 != k);
    }
    if i >= 0 && f > i {
        assert(e[i].0 != k);
    }
}

/// A read after a write: the key written gives the value written, and every
/// other key gives what it gave before.
pub proof fn law_lookup_after_insert<W>(e: Seq<(Seq<char>, W)>, k: Seq<char>, v: W, k2: Seq<char>)
    ensures
        lookup(inserted(e, k, v), k2) == (if k2 == k { Some(v) } else { lookup(e, k2) }),
{
    lemma_index_of_key(e, k);
    lemma_index_of_key(e, k2);
    let i = index_of_key(e, k);
    let j = index_of_key(e, k2);
    let n = inserted(e, k, v);
    if i >= 0 {
        assert(n == e.update(i, (k, v)));
        if k2 == k {
            lemma_index_of_key_is(n, k2, i);
        } else {
            assert forall|t: int| 0 <= t < n.len() && (j < 0 || t < j) implies #[trigger] n[t].0 != k2 by {
                if t != i {
                    assert(n[t] == e[t]);
                }
            }
            if j >= 0 {
                assert(j != i);
                assert(n[j] == e[j]);
            }
            lemma_index_of_key_is(n, k2, j);
        }
    } else {
        assert(n == e.push((k, v)));
        if k2 == k {
            assert forall|t: int| 0 <= t < n.len() && t < e.len() implies #[trigger] n[t].0 != k2 by {
                assert(n[t] == e[t]);
            }
            lemma_index_of_key_is(n, k2, e.len() as int);
        } else {
            assert forall|t: int| 0 <= t < n.len() && (j < 0 || t < j) implies #[trigger] n[t].0 != k2 by {
                if t < e.len() {
                    assert(n[t] == e[t]);
                }
            }
            if j >= 0 {
                assert(n[j] == e[j]);
            }
            lemma_index_of_key_is(n, k2, j);
        }
    }
}

/// A read after a removal: the key removed gives nothing, and every other
/// key gives what it gave before.
pub proof fn law_lookup_after_remove<W>(e: Seq<(Seq<char>, W)>, k: Seq<char>, k2: Seq<char>)
    requires
        unique_keys(e),
    ensures
        lookup(removed(e, k), k2) == (if k2 == k { None } else { lookup(e, k2) }),
{
    lemma_index_of_key(e, k);
    lemma_index_of_key(e, k2);
    let i = index_of_key(e, k);
    let j = index_of_key(e, k2);
    let n = removed(e, k);
    if i >= 0 {
        assert(n == e.remove(i));
        if k2 == k {
            assert forall|t: int| 0 <= t < n.len() implies #[trigger] n[t].0 != k2 by {
                if t < i {
                    assert(n[t] == e[t]);
                } else {
                    assert(n[t] == e[t + 1]);
                    assert(e[t + 1].0 != e[i].0);
                }
            }
            lemma_index_of_key_is(n, k2, -1);
        } else {
            let jn = if j < 0 { -1 } else if j < i { j } else { j - 1 };
            if j >= 0 {
                assert(j != i);
                if j < i {
                    assert(n[jn] == e[j]);
                } else {
                    assert(n[jn] == e[jn + 1]);
                }
            }
            assert forall|t: int| 0 <= t < n.len() && (jn < 0 || t < jn) implies #[trigger] n[t].0 != k2 by {
                if t < i {
                    assert(n[t] == e[t]);
                } else {
                    assert(n[t] == e[t + 1]);
                }
            }
            lemma_index_of_key_is(n, k2, jn);
        }
    }
}

/// The value of the last pair with key `k`.
pub open spec fn last_value<W>(pairs: Seq<(Seq<char>, W)>, k: Seq<char>) -> Option<W>
    decreases pairs.len(),
{
    if pairs.len() == 0 {
        None
    } else if pairs.last().0 == k {
        Some(pairs.last().1)
    } else {
        last_value(pairs.drop_last(), k)
    }
}

/// After storing a list of pairs, a key gives the value of the last pair
/// with that key, or what it gave before when no pair has it.
pub proof fn lemma_lookup_insert_all<W>(e: Seq<(Seq<char>, W)>, pairs: Seq<(Seq<char>, W)>, k: Seq<char>)
    ensures
        lookup(insert_all(e, pairs), k) == (match last_value(pairs, k) {
            Some(v) => Some(v),
            None => lookup(e, k),
        }),
    decreases pairs.len(),
{
    if pairs.len() > 0 {
        lemma_lookup_insert_all(e, pairs.drop_last(), k);
        law_lookup_after_insert(insert_all(e, pairs.drop_last()), pairs.last().0, pairs.last().1, k);
    }
}

/// What `last_value` finds is an entry of the pairs.
pub proof fn lemma_last_value_found<W>(pairs: Seq<(Seq<char>, W)>, k: Seq<char>)
    ensures
        last_value(pairs, k) is Some ==> exists|j: int|
            0 <= j < pairs.len() && #[trigger] pairs[j] == (k, last_value(pairs, k)->0),
    decreases pairs.len(),
{
    if pairs.len() > 0 && pairs.last().0 != k {
        let q = pairs.drop_last();
        lemma_last_value_found(q, k);
        if last_value(q, k) is Some {
            let j = choose|j: int| 0 <= j < q.len() && #[trigger] q[j] == (k, last_value(q, k)->0);
            assert(pairs[j] == q[j]);
        }
    } else if pairs.len() > 0 {
        assert(pairs[pairs.len() - 1] == pairs.last());
    }
}

/// Where keys are unique, the last pair with a key is the first.
pub proof fn lemma_last_value_unique<W>(pairs: Seq<(Seq<char>, W)>, k: Seq<char>)
    requires
        unique_keys(pairs),
    ensures
        last_value(pairs, k) == lookup(pairs, k),
    decreases pairs.len(),
{
    if pairs.len() > 0 {
        let p = pairs.drop_last();
        assert(unique_keys(p)) by {
            assert forall|a: int, b: int| 0 <= a < p.len() && 0 <= b < p.len() && a != b implies p[a].0 != p[b].0 by {
                assert(p[a] == pairs[a]);
                assert(p[b] == pairs[b]);
            }
        }
        lemma_last_value_unique(p, k);
        lemma_index_of_key(p, k);
        let j = index_of_key(p, k);
        if pairs.last().0 == k {
            assert forall|t: int| 0 <= t < pairs.len() && t < pairs.len() - 1 implies #[trigger] pairs[t].0 != k by {
                assert(pairs[t].0 != pairs[pairs.len() - 1].0);
            }
            lemma_index_of_key_is(pairs, k, pairs.len() - 1);
        } else {
            assert forall|t: int| 0 <= t < pairs.len() && (j < 0 || t < j) implies #[trigger] pairs[t].0 != k by {
                if t < p.len() {
                    assert(pairs[t] == p[t]);
                }
            }
            if j >= 0 {
                assert(pairs[j] == p[j]);
            }
            lemma_index_of_key_is(pairs, k, j);
        }
    }
}

/// Storing pairs whose keys are all new, and distinct, appends them.
pub proof fn lemma_insert_all_fresh<W>(e: Seq<(Seq<char>, W)>, pairs: Seq<(Seq<char>, W)>)
    requires
        unique_keys(pairs),
        forall|i: int, j: int| 0 <= i < e.len() && 0 <= j < pairs.len() ==> e[i].0 != pairs[j].0,
    ensures
        insert_all(e, pairs) == e + pairs,
    decreases pairs.len(),
{
    if pairs.len() == 0 {
        assert(e + pairs =~= e);
    } else {
        let q = pairs.drop_last();
        let x = pairs.last();
        assert(unique_keys(q)) by {
            assert forall|i: int, j: int| 0 <= i < q.len() && 0 <= j < q.len() && i != j implies q[i].0 != q[j].0 by {
                assert(q[i] == pairs[i] && q[j] == pairs[j]);
            }
        }
        assert forall|i: int, j: int| 0 <= i < e.len() && 0 <= j < q.len() implies e[i].0 != q[j].0 by {
            assert(q[j] == pairs[j]);
        }
        lemma_insert_all_fresh(e, q);
        let eq = e + q;
        assert forall|j: int| 0 <= j < eq.len() implies #[trigger] eq[j].0 != x.0 by {
            assert(x == pairs[pairs.len() - 1]);
            if j < e.len() {
                assert(eq[j] == e[j]);
            } else {
                assert(eq[j] == pairs[j - e.len()]);
            }
        }
        lemma_index_of_key_is(eq, x.0, -1);
        assert(eq.push(x) =~= e + pairs);
    }
}

/// Storing keeps keys unique.
pub proof fn lemma_inserted_unique<W>(e: Seq<(Seq<char>, W)>, k: Seq<char>, v: W)
    requires
        unique_keys(e),
    ensures
        unique_keys(inserted(e, k, v)),
{
    lemma_index_of_key(e, k);
    let i = index_of_key(e, k);
    let n = inserted(e, k, v);
    if i >= 0 {
        assert forall|a: int, b: int| 0 <= a < n.len() && 0 <= b < n.len() && a != b implies n[a].0 != n[b].0 by {
            assert(n[a].0 == e[a].0);
            assert(n[b].0 == e[b].0);
        }
    } else {
        assert forall|a: int, b: int| 0 <= a < n.len() && 0 <= b < n.len() && a != b implies n[a].0 != n[b].0 by {
            if a < e.len() {
                assert(n[a] == e[a]);
            }
            if b < e.len() {
                assert(n[b] == e[b]);
            }
        }
    }
}

/// Removing a key that was just stored leaves the map answering as it did
/// before for every other key, and holding nothing under that key.
pub proof fn law_remove_undoes_insert<W>(e: Seq<(Seq<char>, W)>, k: Seq<char>, v: W, k2: Seq<char>)
    requires
        unique_keys(e),
    ensures
        lookup(removed(inserted(e, k, v), k), k2) == (if k2 == k { None } else { lookup(e, k2) }),
{
    lemma_inserted_unique(e, k, v);
    law_lookup_after_remove(inserted(e, k, v), k, k2);
    law_lookup_after_insert(e, k, v, k2);
}

/// Storing each pair of a list keeps keys unique.
pub proof fn lemma_insert_all_unique<W>(e: Seq<(Seq<char>, W)>, pairs: Seq<(Seq<char>, W)>)
    requires
        unique_keys(e),
    ensures
        unique_keys(insert_all(e, pairs)),
    decreases pairs.len(),
{
    if pairs.len() > 0 {
        lemma_insert_all_unique(e, pairs.drop_last());
        lemma_inserted_unique(insert_all(e, pairs.drop_last()), pairs.last().0, pairs.last().1);
    }
}

/// A map keyed by text whose entries keep their insertion order.
pub struct StrMap<V: DeepView> {
    items: Vec<(String, V)>,
}

impl<V: DeepView> View for StrMap<V> {
    type V = Seq<(Seq<char>, V::V)>;

    closed spec fn view(&self) -> Seq<(Seq<char>, V::V)> {
        self.items.deep_view()
    }
}

impl<V: DeepView> StrMap<V> {
    #[verifier::type_invariant]
    spec fn keys_are_unique(self) -> bool {
        unique_keys(self.items.deep_view())
    }

    /// An empty map.
    pub fn new() -> (r: Self)
        ensures
            r@ == Seq::<(Seq<char>, V::V)>::empty(),
    {
        let r = StrMap { items: Vec::new() };
        assert(r.items.deep_view() =~= Seq::<(Seq<char>, V::V)>::empty());
        r
    }

    /// No key occurs twice in any map.
    pub fn lemma_unique(&self)
        ensures
            unique_keys(self@),
    {
        proof {
            use_type_invariant(self);
        }
    }

    /// The number of entries.
    pub fn len(&self) -> (r: usize)
        ensures
            r == self@.len(),
    {
        self.items.len()
    }

    /// The entries, in order.
    pub fn entries(&self) -> (r: &Vec<(String, V)>)
        ensures
            r.deep_view() == self@,
    {
        &self.items
    }

    fn find(&self, k: &str) -> (r: Option<usize>)
        ensures
            r matches Some(i) ==> index_of_key(self@, k@) == i,
            r is None ==> index_of_key(self@, k@) < 0,
    {
        let mut j: usize = 0;
        while j < self.items.len()
            invariant
                j <= self.items.len(),
                forall|t: int| 0 <= t < j ==> #[trigger] self@[t].0 != k@,
            decreases self.items.len() - j,
        {
            assert(self@[j as int].0 == self.items@[j as int].0@);
            if str_eq(self.items[j].0.as_str(), k) {
                proof {
                    lemma_index_of_key_is(self@, k@, j as int);
                }
                return Some(j);
            }
            j = j + 1;
        }
        proof {
            lemma_index_of_key_is(self@, k@, -1);
        }
        None
    }

    /// Whether `k` has an entry.
    pub fn contains_key(&self, k: &str) -> (r: bool)
        ensures
            r == (index_of_key(self@, k@) >= 0),
    {
        self.find(k).is_some()
    }

    /// The value stored under `k`.
    pub fn get(&self, k: &str) -> (r: Option<&V>)
        ensures
            r.deep_view() == lookup(self@, k@),
    {
        match self.find(k) {
            Some(i) => {
                proof {
                    lemma_index_of_key(self@, k@);
                }
                assert(self.items.deep_view().len() == self.items@.len());
                assert(self.items.deep_view()[i as int].1 == self.items@[i as int].1.deep_view());
                Some(&self.items[i].1)
            },
            None => None,
        }
    }

    /// Stores `v` under `k`, handing back the value it replaces.
    pub fn insert(&mut self, k: String, v: V) -> (r: Option<V>)
        ensures
            final(self)@ == inserted(old(self)@, k@, v.deep_view()),
            r.deep_view() == lookup(old(self)@, k@),
    {
        proof {
            use_type_invariant(&*self);
        }
        match self.find(k.as_str()) {
            Some(i) => {
                let ghost e = self@;
                proof {
                    lemma_index_of_key(e, k@);
                }
                let ghost nv = v.deep_view();
                let ghost kv = k@;
                let mut items: Vec<(String, V)> = Vec::new();
                std::mem::swap(&mut items, &mut self.items);
                assert(items.deep_view() == e);
                assert(items.deep_view().len() == items@.len());
                let old_entry = items.remove(i);
                items.insert(i, (k, v));
                assert(items.deep_view() =~= e.update(i as int, (kv, nv)));
                self.items = items;
                Some(old_entry.1)
            },
            None => {
                let ghost e = self@;
                proof {
                    lemma_index_of_key(e, k@);
                }
                let ghost kv = k@;
                let ghost nv = v.deep_view();
                let mut items: Vec<(String, V)> = Vec::new();
                std::mem::swap(&mut items, &mut self.items);
                assert(items.deep_view() == e);
                items.push((k, v));
                assert(items.deep_view() =~= e.push((kv, nv)));
                self.items = items;
                None
            },
        }
    }

    /// Removes the entry of `k`, handing back its value.
    pub fn remove(&mut self, k: &str) -> (r: Option<V>)
        ensures
            final(self)@ == removed(old(self)@, k@),
            r.deep_view() == lookup(old(self)@, k@),
    {
        proof {
            use_type_invariant(&*self);
        }
        match self.find(k) {
            Some(i) => {
                let ghost e = self@;
                proof {
                    lemma_index_of_key(e, k@);
                }
                let mut items: Vec<(String, V)> = Vec::new();
                std::mem::swap(&mut items, &mut self.items);
                assert(items.deep_view() == e);
                assert(items.deep_view().len() == items@.len());
                let entry = items.remove(i);
                assert(items.deep_view() =~= e.remove(i as int));
                self.items = items;
                Some(entry.1)
            },
            None => None,
        }
    }
}

} // verus!
