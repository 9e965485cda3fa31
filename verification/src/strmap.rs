//! A map keyed by strings, held as a vector of entries in which no key occurs
//! twice. It stands for the `HashMap<String, _>` tables of the service.

use vstd::prelude::*;

verus! {

/// Entries in insertion order; every key occurs at most once.
pub struct StrMap<V> {
    entries: Vec<(String, V)>,
}

/// No two entries of `s` share a key.
pub open spec fn distinct_keys<V>(s: Seq<(String, V)>) -> bool {
    forall|i: int, j: int| 0 <= i < s.len() && 0 <= j < s.len() && i != j ==> #[trigger] s[i].0@ != #[trigger] s[j].0@
}

impl<V> StrMap<V> {
    #[verifier::type_invariant]
    spec fn keys_are_distinct(self) -> bool {
        distinct_keys(self.entries@)
    }

    /// The entries, in insertion order.
    pub closed spec fn entries(&self) -> Seq<(String, V)> {
        self.entries@
    }

    /// The keys, in insertion order.
    pub open spec fn key_seq(&self) -> Seq<Seq<char>> {
        self.entries().map_values(|e: (String, V)| e.0@)
    }

    /// Whether `k` is a key.
    pub open spec fn has(&self, k: Seq<char>) -> bool {
        exists|i: int| 0 <= i < self.entries().len() && #[trigger] self.entries()[i].0@ == k
    }

    /// The index of key `k` (meaningful when `self.has(k)`).
    pub open spec fn index_of(&self, k: Seq<char>) -> int {
        choose|i: int| 0 <= i < self.entries().len() && #[trigger] self.entries()[i].0@ == k
    }

    /// The map that the entries describe.
    pub open spec fn view(&self) -> Map<Seq<char>, V> {
        Map::new(|k: Seq<char>| self.has(k), |k: Seq<char>| self.entries()[self.index_of(k)].1)
    }

    /// The keys are distinct (the type's invariant, made available to callers).
    pub fn note_distinct(&self)
        ensures
            distinct_keys(self.entries()),
    {
        proof { use_type_invariant(self); }
    }

    /// Looking a key up by its index.
    pub proof fn lemma_index(&self, i: int)
        requires
            distinct_keys(self.entries()),
            0 <= i < self.entries().len(),
        ensures
            self@.contains_key(self.entries()[i].0@),
            self@[self.entries()[i].0@] == self.entries()[i].1,
            self.index_of(self.entries()[i].0@) == i,
    {
        let k = self.entries()[i].0@;
        assert(self.has(k));
        let j = self.index_of(k);
        assert(self.entries()[j].0@ == k);
    }

    /// An empty map.
    pub fn new() -> (m: Self)
        ensures
            m@ == Map::<Seq<char>, V>::empty(),
            m.entries().len() == 0,
    {
        let m = StrMap { entries: Vec::new() };
        assert(m@ =~= Map::<Seq<char>, V>::empty());
        m
    }

    /// Number of entries.
    pub fn len(&self) -> (n: usize)
        ensures
            n == self.entries().len(),
            n == self@.dom().len(),
    {
        proof { use_type_invariant(self); self.lemma_dom_len(); }
        self.entries.len()
    }

    /// The domain has as many keys as there are entries.
    pub proof fn lemma_dom_len(&self)
        requires
            distinct_keys(self.entries()),
        ensures
            self@.dom().len() == self.entries().len(),
            self@.dom() == self.key_seq().to_set(),
            self.key_seq().no_duplicates(),
    {
        let ks = self.key_seq();
        assert forall|i: int, j: int| 0 <= i < ks.len() && 0 <= j < ks.len() && i != j implies ks[i] != ks[j] by {
            assert(self.entries()[i].0@ != self.entries()[j].0@);
        }
        assert forall|k: Seq<char>| self@.dom().contains(k) <==> ks.to_set().contains(k) by {
            if self@.dom().contains(k) {
                let i = self.index_of(k);
                assert(ks[i] == k);
            }
            if ks.to_set().contains(k) {
                let i = choose|i: int| 0 <= i < ks.len() && ks[i] == k;
                assert(self.entries()[i].0@ == k);
            }
        }
        assert(self@.dom() =~= ks.to_set());
        ks.unique_seq_to_set();
    }

    /// The key of entry `i`.
    pub fn key_at(&self, i: usize) -> (k: &String)
        requires
            i < self.entries().len(),
        ensures
            *k == self.entries()[i as int].0,
            self@.contains_key(k@),
    {
        proof { use_type_invariant(self); self.lemma_index(i as int); }
        &self.entries[i].0
    }

    /// The value of entry `i`.
    pub fn value_at(&self, i: usize) -> (v: &V)
        requires
            i < self.entries().len(),
        ensures
            *v == self.entries()[i as int].1,
            *v == self@[self.entries()[i as int].0@],
    {
        proof { use_type_invariant(self); self.lemma_index(i as int); }
        &self.entries[i].1
    }

    /// The index of `k`, if it is a key.
    pub fn find(&self, k: &str) -> (r: Option<usize>)
        ensures
            r is Some <==> self@.contains_key(k@),
            r matches Some(i) ==> i < self.entries().len() && self.entries()[i as int].0@ == k@,
    {
        let n = self.entries.len();
        let mut i: usize = 0;
        while i < n
            invariant
                n == self.entries().len(),
                i <= n,
                forall|j: int| 0 <= j < i ==> self.entries()[j].0@ != k@,
            decreases n - i,
        {
            if str_eq(self.entries[i].0.as_str(), k) {
                return Some(i);
            }
            i = i + 1;
        }
        proof {
            if self.has(k@) {
                let j = self.index_of(k@);
                assert(self.entries()[j].0@ == k@);
            }
        }
        None
    }

    /// Whether `k` is a key.
    pub fn contains_key(&self, k: &str) -> (b: bool)
        ensures
            b == self@.contains_key(k@),
    {
        self.find(k).is_some()
    }

    /// The value for `k`, if any.
    pub fn get(&self, k: &str) -> (r: Option<&V>)
        ensures
            r is Some <==> self@.contains_key(k@),
            r matches Some(v) ==> *v == self@[k@],
    {
        match self.find(k) {
            Some(i) => {
                proof { use_type_invariant(self); self.lemma_index(i as int); }
                Some(&self.entries[i].1)
            },
            None => None,
        }
    }

    /// Sets the value of `k`; a new key goes after the existing ones.
    pub fn insert(&mut self, k: String, v: V)
        ensures
            final(self)@ == old(self)@.insert(k@, v),
            old(self)@.contains_key(k@) ==> final(self).key_seq() == old(self).key_seq(),
            !old(self)@.contains_key(k@) ==> final(self).key_seq() == old(self).key_seq().push(k@),
    {
        let ghost old_map = self@;
        let ghost old_entries = self.entries();
        proof { use_type_invariant(&*self); }
        match self.find(k.as_str()) {
            Some(i) => {
                let ghost key = k@;
                let mut entries: Vec<(String, V)> = Vec::new();
                std::mem::swap(&mut entries, &mut self.entries);
                entries.set(i, (k, v));
                proof {
                    assert forall|a: int, b: int| 0 <= a < entries@.len() && 0 <= b < entries@.len() && a != b
                        implies #[trigger] entries@[a].0@ != #[trigger] entries@[b].0@ by {
                        assert(old_entries[a].0@ == entries@[a].0@);
                        assert(old_entries[b].0@ == entries@[b].0@);
                    }
                }
                self.entries = entries;
                proof {
                    assert(self.entries() == old_entries.update(i as int, (self.entries()[i as int].0, v)));
                    assert forall|kk: Seq<char>| self.has(kk) <==> old_map.contains_key(kk) by {
                        if self.has(kk) {
                            let j = choose|j: int| 0 <= j < self.entries().len() && #[trigger] self.entries()[j].0@ == kk;
                            assert(old_entries[j].0@ == kk);
                        }
                        if old_map.contains_key(kk) {
                            let j = choose|j: int| 0 <= j < old_entries.len() && #[trigger] old_entries[j].0@ == kk;
                            assert(self.entries()[j].0@ == kk);
                        }
                    }
                    assert forall|kk: Seq<char>| #[trigger] self@.contains_key(kk) implies self@[kk] == old_map.insert(key, v)[kk] by {
                        let j = self.index_of(kk);
                        assert(self.entries()[j].0@ == kk);
                        if kk != key {
                            let jo = choose|jo: int| 0 <= jo < old_entries.len() && #[trigger] old_entries[jo].0@ == kk;
                            assert(self.entries()[jo].0@ == kk);
                                                        assert(j == jo);
                        } else {
                            assert(self.entries()[i as int].0@ == key);
                                                    }
                    }
                    assert(self@ =~= old_map.insert(key, v));
                    assert(self.key_seq() =~= old(self).key_seq());
                }
            },
            None => {
                let ghost key = k@;
                let mut entries: Vec<(String, V)> = Vec::new();
                std::mem::swap(&mut entries, &mut self.entries);
                entries.push((k, v));
                proof {
                    let n = old_entries.len();
                    assert forall|a: int, b: int| 0 <= a < entries@.len() && 0 <= b < entries@.len() && a != b
                        implies #[trigger] entries@[a].0@ != #[trigger] entries@[b].0@ by {
                        if a < n && b < n {
                            assert(old_entries[a].0@ == entries@[a].0@);
                            assert(old_entries[b].0@ == entries@[b].0@);
                        } else if a < n {
                            assert(old_entries[a].0@ == entries@[a].0@);
                        } else {
                            assert(old_entries[b].0@ == entries@[b].0@);
                        }
                    }
                }
                self.entries = entries;
                proof {
                    let n = old_entries.len();
                    assert forall|kk: Seq<char>| #[trigger] self.has(kk) <==> old_map.insert(key, v).contains_key(kk) by {
                        if self.has(kk) {
                            let j = choose|j: int| 0 <= j < self.entries().len() && #[trigger] self.entries()[j].0@ == kk;
                            if j < n {
                                assert(old_entries[j].0@ == kk);
                            }
                        }
                        if old_map.contains_key(kk) {
                            let j = choose|j: int| 0 <= j < old_entries.len() && #[trigger] old_entries[j].0@ == kk;
                            assert(self.entries()[j].0@ == kk);
                        }
                        if kk == key {
                            assert(self.entries()[n as int].0@ == kk);
                        }
                    }
                    assert forall|kk: Seq<char>| #[trigger] self@.contains_key(kk) implies self@[kk] == old_map.insert(key, v)[kk] by {
                        let j = self.index_of(kk);
                        assert(self.entries()[j].0@ == kk);
                        if kk != key {
                            let jo = choose|jo: int| 0 <= jo < old_entries.len() && #[trigger] old_entries[jo].0@ == kk;
                            assert(self.entries()[jo].0@ == kk);
                                                    } else {
                            assert(self.entries()[n as int].0@ == key);
                                                    }
                    }
                    assert(self@ =~= old_map.insert(key, v));
                    assert(self.key_seq() =~= old(self).key_seq().push(key));
                }
            },
        }
    }
}

/// Values that can be copied into an equal value.
pub trait Duplicate: Sized {
    fn duplicate(&self) -> (r: Self)
        ensures
            r == *self;
}

impl Duplicate for String {
    fn duplicate(&self) -> (r: String) {
        self.clone()
    }
}

impl<V: Duplicate> StrMap<V> {
    /// A copy of the map, entry by entry.
    pub fn clone_map(&self) -> (r: Self)
        ensures
            r.entries() == self.entries(),
            r@ == self@,
    {
        proof { use_type_invariant(self); }
        let n = self.entries.len();
        let mut out: Vec<(String, V)> = Vec::new();
        let mut i: usize = 0;
        while i < n
            invariant
                n == self.entries().len(),
                i <= n,
                out@ == self.entries().take(i as int),
            decreases n - i,
        {
            let k = self.entries[i].0.clone();
            let v = self.entries[i].1.duplicate();
            out.push((k, v));
            proof {
                assert(out@ =~= self.entries().take(i + 1));
            }
            i = i + 1;
        }
        proof {
            assert(out@ =~= self.entries());
        }
        let r = StrMap { entries: out };
        assert(r@ =~= self@);
        r
    }
}

impl<V: Clone> Clone for StrMap<V> {
    /// A copy with the same keys in the same order, each value cloned.
    fn clone(&self) -> (r: Self)
        ensures
            r.key_seq() == self.key_seq(),
            forall|i: int| 0 <= i < self.entries().len() ==> cloned(#[trigger] self.entries()[i].1, r.entries()[i].1),
    {
        proof { use_type_invariant(self); }
        let n = self.entries.len();
        let mut out: Vec<(String, V)> = Vec::new();
        let mut i: usize = 0;
        while i < n
            invariant
                n == self.entries().len(),
                i <= n,
                out@.len() == i,
                forall|j: int| 0 <= j < i ==> #[trigger] out@[j].0 == self.entries()[j].0,
                forall|j: int| 0 <= j < i ==> cloned(#[trigger] self.entries()[j].1, out@[j].1),
            decreases n - i,
        {
            let k = self.entries[i].0.clone();
            let v = self.entries[i].1.clone();
            out.push((k, v));
            i = i + 1;
        }
        proof {
            assert forall|a: int, b: int| 0 <= a < out@.len() && 0 <= b < out@.len() && a != b
                implies #[trigger] out@[a].0@ != #[trigger] out@[b].0@ by {
                assert(out@[a].0 == self.entries()[a].0);
                assert(out@[b].0 == self.entries()[b].0);
            }
        }
        let r = StrMap { entries: out };
        assert(r.key_seq() =~= self.key_seq());
        r
    }
}

/// Equality of two strings' contents.
pub fn str_eq(a: &str, b: &str) -> (r: bool)
    ensures
        r == (a@ == b@),
{
    let n = a.unicode_len();
    let m = b.unicode_len();
    if n != m {
        return false;
    }
    let mut i: usize = 0;
    while i < n
        invariant
            n == a@.len(),
            m == b@.len(),
            n == m,
            i <= n,
            forall|j: int| 0 <= j < i ==> a@[j] == b@[j],
        decreases n - i,
    {
        if a.get_char(i) != b.get_char(i) {
            return false;
        }
        i = i + 1;
    }
    assert(a@ =~= b@);
    true
}

} // verus!
