//! Maps keyed by names, kept in insertion order.
use vstd::prelude::*;

verus! {

broadcast use vstd::string::group_string_axioms;

/// The position of the first entry at or after `i` whose key is `k`.
pub open spec fn assoc_find_from<T>(m: Seq<(Seq<char>, T)>, k: Seq<char>, i: int) -> Option<int>
    decreases m.len() - i,
{
    if i < 0 || i >= m.len() {
        None
    } else if m[i].0 == k {
        Some(i)
    } else {
        assoc_find_from(m, k, i + 1)
    }
}

/// The position of the first entry whose key is `k`.
pub open spec fn assoc_find<T>(m: Seq<(Seq<char>, T)>, k: Seq<char>) -> Option<int> {
    assoc_find_from(m, k, 0)
}

/// The value that `m` gives `k`.
pub open spec fn assoc_get<T>(m: Seq<(Seq<char>, T)>, k: Seq<char>) -> Option<T> {
    match assoc_find(m, k) {
        Some(i) => Some(m[i].1),
        None => None,
    }
}

/// `m` with `k` bound to `v`: the entry of `k` is updated in place, or a new
/// entry is appended when `k` has none.
pub open spec fn assoc_insert<T>(m: Seq<(Seq<char>, T)>, k: Seq<char>, v: T) -> Seq<
    (Seq<char>, T),
> {
    match assoc_find(m, k) {
        Some(i) => m.update(i, (k, v)),
        None => m.push((k, v)),
    }
}

/// No two entries of `m` share a key.
pub open spec fn assoc_keys_distinct<T>(m: Seq<(Seq<char>, T)>) -> bool {
    forall|i: int, j: int| 0 <= i < j < m.len() ==> m[i].0 != m[j].0
}

/// The keys of `m`, in order.
pub open spec fn assoc_keys<T>(m: Seq<(Seq<char>, T)>) -> Seq<Seq<char>> {
    m.map_values(|e: (Seq<char>, T)| e.0)
}

/// `assoc_find_from` returns the first matching position.
pub proof fn lemma_assoc_find_from<T>(m: Seq<(Seq<char>, T)>, k: Seq<char>, i: int)
    requires
        0 <= i,
    ensures
        assoc_find_from(m, k, i) matches Some(j) ==> i <= j < m.len() && m[j].0 == k && forall|
            l: int,
        |
            i <= l < j ==> m[l].0 != k,
        assoc_find_from(m, k, i) is None ==> forall|l: int| i <= l < m.len() ==> m[l].0 != k,
    decreases m.len() - i,
{
    if i < m.len() && m[i].0 != k {
        lemma_assoc_find_from(m, k, i + 1);
    }
}

/// A map from names to values that keeps its entries in insertion order.
#[derive(Debug)]
pub struct NameMap<V> {
    entries: Vec<(String, V)>,
}

impl<V: DeepView> View for NameMap<V> {
    type V = Seq<(Seq<char>, V::V)>;

    closed spec fn view(&self) -> Seq<(Seq<char>, V::V)> {
        self.entries@.map_values(|e: (String, V)| (e.0@, e.1.deep_view()))
    }
}

impl<V: DeepView> DeepView for NameMap<V> {
    type V = Seq<(Seq<char>, V::V)>;

    open spec fn deep_view(&self) -> Seq<(Seq<char>, V::V)> {
        self@
    }
}

impl<V> NameMap<V> {
    /// No two entries share a key.
    #[verifier::type_invariant]
    closed spec fn keys_distinct(self) -> bool {
        forall|i: int, j: int|
            0 <= i < j < self.entries@.len() ==> self.entries@[i].0@ != self.entries@[j].0@
    }
}

impl<V: DeepView> NameMap<V> {
    /// An empty map.
    pub fn new() -> (res: Self)
        ensures
            res@ == Seq::<(Seq<char>, V::V)>::empty(),
            assoc_keys_distinct(res@),
    {
        let res = NameMap { entries: Vec::new() };
        assert(res@ =~= Seq::<(Seq<char>, V::V)>::empty());
        res
    }

    /// The number of entries.
    pub fn len(&self) -> (res: usize)
        ensures
            res == self@.len(),
            assoc_keys_distinct(self@),
    {
        proof {
            use_type_invariant(self);
        }
        self.entries.len()
    }

    /// Whether the map has no entry.
    pub fn is_empty(&self) -> (res: bool)
        ensures
            res == (self@.len() == 0),
    {
        self.entries.len() == 0
    }

    /// The key of the `i`-th entry.
    pub fn key_at(&self, i: usize) -> (res: &String)
        requires
            i < self@.len(),
        ensures
            res@ == self@[i as int].0,
    {
        &self.entries[i].0
    }

    /// The value of the `i`-th entry.
    pub fn value_at(&self, i: usize) -> (res: &V)
        requires
            i < self@.len(),
        ensures
            res.deep_view() == self@[i as int].1,
    {
        &self.entries[i].1
    }

    /// The position of the entry of `k`.
    pub fn position(&self, k: &str) -> (res: Option<usize>)
        ensures
            res matches Some(i) ==> i < self@.len() && assoc_find(self@, k@) == Some(i as int),
            res is None ==> assoc_find(self@, k@) is None,
    {
        let key = k.to_string();
        let mut i: usize = 0;
        while i < self.entries.len()
            invariant
                i <= self@.len(),
                key@ == k@,
                assoc_find(self@, k@) == assoc_find_from(self@, k@, i as int),
            decreases self@.len() - i,
        {
            if self.entries[i].0 == key {
                return Some(i);
            }
            i += 1;
        }
        None
    }

    /// The value bound to `k`.
    pub fn get(&self, k: &str) -> (res: Option<&V>)
        ensures
            res matches Some(v) ==> assoc_get(self@, k@) == Some(v.deep_view()),
            res is None ==> assoc_get(self@, k@) is None,
    {
        match self.position(k) {
            Some(i) => Some(&self.entries[i].1),
            None => None,
        }
    }

    /// Whether `k` has an entry.
    pub fn contains_key(&self, k: &str) -> (res: bool)
        ensures
            res == (assoc_find(self@, k@) is Some),
    {
        self.position(k).is_some()
    }

    /// Binds `k` to `v`, replacing the value of an existing entry of `k`.
    pub fn insert(&mut self, k: String, v: V)
        ensures
            final(self)@ == assoc_insert(old(self)@, k@, v.deep_view()),
            assoc_keys_distinct(final(self)@),
    {
        proof {
            use_type_invariant(&*self);
        }
        let ghost old_view = self@;
        let ghost old_entries = self.entries@;
        let pos = self.position(k.as_str());
        let mut entries: Vec<(String, V)> = Vec::new();
        std::mem::swap(&mut entries, &mut self.entries);
        let ghost ek = k@;
        let ghost kv = (k, v);
        match pos {
            Some(i) => {
                let _old = entries.remove(i);
                entries.insert(i, (k, v));
                assert(entries@ =~= old_entries.update(i as int, kv));
            },
            None => {
                entries.push((k, v));
                assert(entries@ =~= old_entries.push(kv));
            },
        }
        proof {
            lemma_assoc_find_from(old_view, ek, 0);
            assert forall|a: int| 0 <= a < old_entries.len() implies old_view[a].0
                == #[trigger] old_entries[a].0@ by {}
            assert forall|a: int, b: int|
                0 <= a < b < entries@.len() implies entries@[a].0@ != entries@[b].0@ by {
                assert(old_entries.len() == old_view.len());
                if b < old_entries.len() {
                    assert(entries@[a].0@ == old_entries[a].0@);
                    assert(entries@[b].0@ == old_entries[b].0@);
                } else {
                    assert(entries@[b].0@ == ek);
                    assert(entries@[a].0@ == old_entries[a].0@);
                    assert(old_view[a].0 != ek);
                }
            }
        }
        self.entries = entries;
        match pos {
            Some(i) => {
                assert(self@ =~= old_view.update(i as int, (ek, v.deep_view())));
            },
            None => {
                assert(self@ =~= old_view.push((ek, v.deep_view())));
            },
        }
    }

    /// Replaces the value of the `i`-th entry by `v` and returns the old one.
    pub fn replace_value_at(&mut self, i: usize, v: V) -> (res: V)
        requires
            i < old(self)@.len(),
        ensures
            final(self)@ == old(self)@.update(i as int, (old(self)@[i as int].0, v.deep_view())),
            res.deep_view() == old(self)@[i as int].1,
    {
        proof {
            use_type_invariant(&*self);
        }
        let ghost old_view = self@;
        let ghost old_entries = self.entries@;
        let mut entries: Vec<(String, V)> = Vec::new();
        std::mem::swap(&mut entries, &mut self.entries);
        let (k, old_v) = entries.remove(i);
        entries.insert(i, (k, v));
        assert forall|a: int, b: int|
            0 <= a < b < entries@.len() implies entries@[a].0@ != entries@[b].0@ by {
            assert(entries@[a].0 == old_entries[a].0);
            assert(entries@[b].0 == old_entries[b].0);
        }
        self.entries = entries;
        assert(self@ =~= old_view.update(i as int, (old_view[i as int].0, v.deep_view())));
        old_v
    }
}

/// Binding a key makes `get` return the bound value for it and leaves
/// every other key's value unchanged.
pub proof fn lemma_assoc_insert_get<T>(m: Seq<(Seq<char>, T)>, k: Seq<char>, v: T, k2: Seq<char>)
    ensures
        assoc_get(assoc_insert(m, k, v), k) == Some(v),
        k2 != k ==> assoc_get(assoc_insert(m, k, v), k2) == assoc_get(m, k2),
{
    let m2 = assoc_insert(m, k, v);
    lemma_assoc_find_from(m, k, 0);
    lemma_assoc_find_from(m2, k, 0);
    lemma_assoc_find_from(m, k2, 0);
    lemma_assoc_find_from(m2, k2, 0);
    let n = m.len() as int;
    match assoc_find(m, k) {
        Some(i) => {
            assert(m2[i].0 == k);
            assert(forall|l: int| 0 <= l < n && l != i ==> m2[l] == m[l]);
        },
        None => {
            assert(m2[n].0 == k);
            assert(forall|l: int| 0 <= l < n ==> m2[l] == m[l]);
        },
    }
    if k2 != k {
        if let Some(j) = assoc_find(m2, k2) {
            assert(m[j].0 == k2);
            if let Some(j0) = assoc_find(m, k2) {
                assert(m2[j0].0 == k2);
                assert(j == j0);
                assert(m2[j] == m[j]);
            }
        }
        if let Some(j0) = assoc_find(m, k2) {
            assert(m2[j0].0 == k2);
        }
    }
}

/// Binding a key keeps the keys of a map distinct.
pub proof fn lemma_assoc_insert_distinct<T>(m: Seq<(Seq<char>, T)>, k: Seq<char>, v: T)
    requires
        assoc_keys_distinct(m),
    ensures
        assoc_keys_distinct(assoc_insert(m, k, v)),
{
    lemma_assoc_find_from(m, k, 0);
}

/// Every key of `assoc_insert(m, k, v)` is `k` or the key at the same
/// position of `m`, and the map keeps or grows its length by one.
pub proof fn lemma_assoc_insert_keys<T>(m: Seq<(Seq<char>, T)>, k: Seq<char>, v: T)
    ensures
        forall|j: int|
            0 <= j < assoc_insert(m, k, v).len() ==> #[trigger] assoc_insert(m, k, v)[j].0 == k || (
            j < m.len() && assoc_insert(m, k, v)[j].0 == m[j].0),
        assoc_insert(m, k, v).len() == m.len() || assoc_insert(m, k, v).len() == m.len() + 1,
{
    lemma_assoc_find_from(m, k, 0);
}

} // verus!
