//! An insertion-ordered map from textual ids to values, in which no id occurs
//! twice.

use vstd::prelude::*;

verus! {

/// No two entries of `s` carry the same key.
pub open spec fn keys_distinct<T>(s: Seq<(String, T)>) -> bool {
    forall|i: int, j: int|
        #![trigger s[i], s[j]]
        0 <= i < s.len() && 0 <= j < s.len() && s[i].0@ == s[j].0@ ==> i == j
}

/// Some entry of `s` carries the key `k`.
pub open spec fn has_key<T>(s: Seq<(String, T)>, k: Seq<char>) -> bool {
    exists|i: int| 0 <= i < s.len() && (#[trigger] s[i]).0@ == k
}

/// The position of an entry of `s` that carries the key `k`.
pub open spec fn slot_of<T>(s: Seq<(String, T)>, k: Seq<char>) -> int {
    choose|i: int| 0 <= i < s.len() && (#[trigger] s[i]).0@ == k
}

/// The map that a sequence of entries with distinct keys stands for.
pub open spec fn entries_map<T>(s: Seq<(String, T)>) -> Map<Seq<char>, T> {
    Map::new(|k: Seq<char>| has_key(s, k), |k: Seq<char>| s[slot_of(s, k)].1)
}

/// The keys of `s`, in order.
pub open spec fn entries_keys<T>(s: Seq<(String, T)>) -> Seq<Seq<char>> {
    Seq::new(s.len(), |i: int| s[i].0@)
}

/// With distinct keys, the entry at `i` is the one its key is mapped to.
pub proof fn lemma_slot<T>(s: Seq<(String, T)>, i: int)
    requires
        keys_distinct(s),
        0 <= i < s.len(),
    ensures
        has_key(s, s[i].0@),
        slot_of(s, s[i].0@) == i,
        entries_map(s).contains_key(s[i].0@),
        entries_map(s)[s[i].0@] == s[i].1,
{
    let k = s[i].0@;
    let j = slot_of(s, k);
    assert(0 <= j < s.len() && s[j].0@ == k);
}

/// A value with a view that can be copied without changing the view.
pub trait Record: View + Sized {
    /// A copy with the same view.
    fn duplicate(&self) -> (copy: Self)
        ensures
            copy@ == self@,
    ;
}

/// A table of values keyed by id. Entries keep the order in which their ids
/// first came in.
#[derive(Debug)]
pub struct Table<T> {
    entries: Vec<(String, T)>,
}

impl<T> View for Table<T> {
    type V = Map<Seq<char>, T>;

    closed spec fn view(&self) -> Map<Seq<char>, T> {
        entries_map(self.entries@)
    }
}

impl<T> Table<T> {
    #[verifier::type_invariant]
    spec fn inv(&self) -> bool {
        keys_distinct(self.entries@)
    }

    /// The ids of the table, in the order of their entries.
    pub closed spec fn keys(&self) -> Seq<Seq<char>> {
        entries_keys(self.entries@)
    }

    /// An empty table.
    pub fn new() -> (t: Self)
        ensures
            t@ == Map::<Seq<char>, T>::empty(),
            t.keys() == Seq::<Seq<char>>::empty(),
    {
        let t = Table { entries: Vec::new() };
        assert(t@ =~= Map::<Seq<char>, T>::empty());
        assert(t.keys() =~= Seq::<Seq<char>>::empty());
        t
    }

    /// The position of the entry for `k`, if there is one.
    fn find(&self, k: &String) -> (r: Option<usize>)
        ensures
            match r {
                Some(i) => i < self.entries@.len() && self.entries@[i as int].0@ == k@,
                None => !has_key(self.entries@, k@),
            },
    {
        let mut i: usize = 0;
        while i < self.entries.len()
            invariant
                i <= self.entries@.len(),
                forall|j: int| 0 <= j < i ==> (#[trigger] self.entries@[j]).0@ != k@,
            decreases self.entries@.len() - i,
        {
            if self.entries[i].0 == *k {
                return Some(i);
            }
            i += 1;
        }
        None
    }

    /// The number of entries.
    pub fn len(&self) -> (n: usize)
        ensures
            n == self.keys().len(),
            n == self@.dom().len(),
            self@.dom().finite(),
            self.keys().no_duplicates(),
            self.keys().to_set() == self@.dom(),
    {
        proof {
            use_type_invariant(self);
            self.lemma_keys();
        }
        self.entries.len()
    }

    /// With distinct keys, the ids are the domain of the map, each once.
    proof fn lemma_keys(&self)
        requires
            keys_distinct(self.entries@),
        ensures
            self.keys().no_duplicates(),
            self.keys().to_set() == self@.dom(),
            self@.dom().finite(),
            self.keys().len() == self@.dom().len(),
    {
        let s = self.entries@;
        let ks = self.keys();
        assert forall|i: int, j: int| 0 <= i < ks.len() && 0 <= j < ks.len() && i != j implies ks[i]
            != ks[j] by {
            if s[i].0@ == s[j].0@ {
                assert(i == j);
            }
        }
        assert forall|k: Seq<char>| ks.to_set().contains(k) <==> self@.dom().contains(k) by {
            if ks.contains(k) {
                let i = choose|i: int| 0 <= i < ks.len() && ks[i] == k;
                assert(s[i].0@ == k);
            }
            if has_key(s, k) {
                let i = slot_of(s, k);
                assert(ks[i] == k);
            }
        }
        assert(ks.to_set() =~= self@.dom());
        ks.unique_seq_to_set();
    }

    /// Whether the table holds an entry for `k`.
    pub fn contains_key(&self, k: &String) -> (b: bool)
        ensures
            b == self@.contains_key(k@),
            b == self.keys().contains(k@),
    {
        proof {
            use_type_invariant(self);
            self.lemma_keys();
        }
        self.find(k).is_some()
    }

    /// The value stored under `k`, if any.
    pub fn get(&self, k: &String) -> (r: Option<&T>)
        ensures
            match r {
                Some(v) => self@.contains_key(k@) && *v == self@[k@],
                None => !self@.contains_key(k@),
            },
    {
        proof {
            use_type_invariant(self);
        }
        match self.find(k) {
            Some(i) => {
                proof {
                    lemma_slot(self.entries@, i as int);
                }
                Some(&self.entries[i].1)
            },
            None => None,
        }
    }

    /// The id of the entry at position `i`.
    pub fn key_at(&self, i: usize) -> (k: &String)
        requires
            i < self.keys().len(),
        ensures
            k@ == self.keys()[i as int],
            self@.contains_key(k@),
    {
        proof {
            use_type_invariant(self);
            lemma_slot(self.entries@, i as int);
        }
        &self.entries[i].0
    }

    /// The value of the entry at position `i`.
    pub fn value_at(&self, i: usize) -> (v: &T)
        requires
            i < self.keys().len(),
        ensures
            self@.contains_key(self.keys()[i as int]),
            *v == self@[self.keys()[i as int]],
    {
        proof {
            use_type_invariant(self);
            lemma_slot(self.entries@, i as int);
        }
        &self.entries[i].1
    }

    /// Stores `v` under `k`. An id that is already present keeps its place and
    /// gets the new value; a new id goes to the end.
    pub fn insert(&mut self, k: String, v: T)
        ensures
            final(self)@ == old(self)@.insert(k@, v),
            final(self).keys() == if old(self)@.contains_key(k@) {
                old(self).keys()
            } else {
                old(self).keys().push(k@)
            },
    {
        proof {
            use_type_invariant(&*self);
        }
        let ghost before = self.entries@;
        let ghost kv = k@;
        let found = self.find(&k);
        let mut entries: Vec<(String, T)> = Vec::new();
        core::mem::swap(&mut self.entries, &mut entries);
        match found {
            Some(i) => {
                entries.set(i, (k, v));
                proof {
                    let after = entries@;
                    assert forall|q: Seq<char>| has_key(after, q) <==> has_key(before, q) by {
                        if has_key(after, q) {
                            let j = slot_of(after, q);
                            assert(before[j].0@ == q);
                        }
                        if has_key(before, q) {
                            let j = slot_of(before, q);
                            assert(after[j].0@ == q);
                        }
                    }
                    assert(keys_distinct(after)) by {
                        assert forall|a: int, b: int|
                            0 <= a < after.len() && 0 <= b < after.len() && after[a].0@
                                == after[b].0@ implies a == b by {
                            assert(before[a].0@ == before[b].0@);
                        }
                    }
                    lemma_slot(before, i as int);
                    lemma_slot(after, i as int);
                    assert forall|q: Seq<char>| has_key(after, q) implies entries_map(after)[q]
                        == entries_map(before).insert(kv, v)[q] by {
                        let j = slot_of(after, q);
                        lemma_slot(after, j);
                        if q != kv {
                            assert(before[j].0@ == q);
                            lemma_slot(before, j);
                        }
                    }
                    assert(entries_map(after) =~= entries_map(before).insert(kv, v));
                    assert(entries_keys(after) =~= entries_keys(before));
                }
                self.entries = entries;
            },
            None => {
                entries.push((k, v));
                proof {
                    let after = entries@;
                    let n = before.len() as int;
                    assert(keys_distinct(after)) by {
                        assert forall|a: int, b: int|
                            0 <= a < after.len() && 0 <= b < after.len() && after[a].0@
                                == after[b].0@ implies a == b by {
                            if a < n && b < n {
                                assert(before[a].0@ == before[b].0@);
                            } else if a < n {
                                assert(before[a].0@ == kv);
                            } else if b < n {
                                assert(before[b].0@ == kv);
                            }
                        }
                    }
                    assert forall|q: Seq<char>| has_key(after, q) <==> (q == kv || has_key(
                        before,
                        q,
                    )) by {
                        if has_key(after, q) {
                            let j = slot_of(after, q);
                            if j < n {
                                assert(before[j].0@ == q);
                            }
                        }
                        if has_key(before, q) {
                            let j = slot_of(before, q);
                            assert(after[j].0@ == q);
                        }
                        if q == kv {
                            assert(after[n].0@ == q);
                        }
                    }
                    assert forall|q: Seq<char>| has_key(after, q) implies entries_map(after)[q]
                        == entries_map(before).insert(kv, v)[q] by {
                        let j = slot_of(after, q);
                        lemma_slot(after, j);
                        if q != kv {
                            assert(before[j].0@ == q);
                            lemma_slot(before, j);
                        }
                    }
                    assert(entries_map(after) =~= entries_map(before).insert(kv, v));
                    assert(entries_keys(after) =~= entries_keys(before).push(kv));
                }
                self.entries = entries;
            },
        }
    }

    /// Takes the entry for `k` out, if there is one. The other entries keep
    /// their order.
    pub fn remove(&mut self, k: &String) -> (r: Option<T>)
        ensures
            final(self)@ == old(self)@.remove(k@),
            match r {
                Some(v) => old(self)@.contains_key(k@) && v == old(self)@[k@],
                None => !old(self)@.contains_key(k@),
            },
            final(self).keys() == without(old(self).keys(), k@),
    {
        proof {
            use_type_invariant(&*self);
        }
        let ghost before = self.entries@;
        let ghost kv = k@;
        match self.find(k) {
            Some(i) => {
                let mut entries: Vec<(String, T)> = Vec::new();
                core::mem::swap(&mut self.entries, &mut entries);
                let gone = entries.remove(i);
                proof {
                    let after = entries@;
                    let n = i as int;
                    lemma_slot(before, n);
                    assert forall|a: int| 0 <= a < after.len() implies #[trigger] after[a]
                        == before[if a < n { a } else { a + 1 }] by {}
                    assert(keys_distinct(after)) by {
                        assert forall|a: int, b: int|
                            0 <= a < after.len() && 0 <= b < after.len() && after[a].0@
                                == after[b].0@ implies a == b by {
                            let a2 = if a < n { a } else { a + 1 };
                            let b2 = if b < n { b } else { b + 1 };
                            assert(before[a2].0@ == before[b2].0@);
                        }
                    }
                    assert forall|q: Seq<char>| has_key(after, q) <==> (q != kv && has_key(
                        before,
                        q,
                    )) by {
                        if has_key(after, q) {
                            let j = slot_of(after, q);
                            let j2 = if j < n { j } else { j + 1 };
                            assert(before[j2].0@ == q);
                            if q == kv {
                                assert(before[j2].0@ == before[n].0@);
                            }
                        }
                        if q != kv && has_key(before, q) {
                            let j = slot_of(before, q);
                            let j2 = if j < n { j } else { j - 1 };
                            assert(after[j2].0@ == q);
                        }
                    }
                    assert forall|q: Seq<char>| has_key(after, q) implies entries_map(after)[q]
                        == entries_map(before)[q] by {
                        let j = slot_of(after, q);
                        lemma_slot(after, j);
                        let j2 = if j < n { j } else { j + 1 };
                        assert(before[j2].0@ == q);
                        lemma_slot(before, j2);
                    }
                    assert(entries_map(after) =~= entries_map(before).remove(kv));
                    assert(entries_keys(after) =~= entries_keys(before).remove(n));
                    assert forall|a: int|
                        0 <= a < before.len() && a != n implies entries_keys(before)[a] != kv by {
                        if before[a].0@ == before[n].0@ {
                            assert(a == n);
                        }
                    }
                    lemma_without_at(entries_keys(before), kv, n);
                }
                self.entries = entries;
                Some(gone.1)
            },
            None => {
                proof {
                    assert(entries_map(before) =~= entries_map(before).remove(kv));
                    let ks = entries_keys(before);
                    assert forall|a: int| 0 <= a < ks.len() implies ks[a] != kv by {
                        if ks[a] == kv {
                            assert(before[a].0@ == kv);
                        }
                    }
                    lemma_without_absent(ks, kv);
                }
                None
            },
        }
    }
}

impl<T: View> Table<T> {
    /// The table as a map from ids to the views of its values.
    pub open spec fn model(&self) -> Map<Seq<char>, T::V> {
        Map::new(|k: Seq<char>| self@.contains_key(k), |k: Seq<char>| self@[k]@)
    }
}

impl<T: Record> Table<T> {
    /// A copy with the same ids in the same order, each with a copy of its
    /// value.
    pub fn duplicate(&self) -> (copy: Self)
        ensures
            copy.model() == self.model(),
            copy.keys() == self.keys(),
    {
        let n = self.len();
        let mut copy: Table<T> = Table::new();
        let mut i: usize = 0;
        while i < n
            invariant
                i <= n,
                n == self.keys().len(),
                self.keys().no_duplicates(),
                self.keys().to_set() == self@.dom(),
                copy.keys() == self.keys().take(i as int),
                forall|k: Seq<char>| copy@.contains_key(k) <==> copy.keys().contains(k),
                forall|k: Seq<char>| #[trigger]
                    copy@.contains_key(k) ==> self@.contains_key(k) && copy@[k]@ == self@[k]@,
            decreases n - i,
        {
            let ghost before = copy;
            let k = self.key_at(i).clone();
            let v = self.value_at(i).duplicate();
            proof {
                if before.keys().contains(k@) {
                    let j = choose|j: int| 0 <= j < before.keys().len() && before.keys()[j] == k@;
                    assert(self.keys()[j] == self.keys()[i as int]);
                }
            }
            copy.insert(k, v);
            proof {
                assert(self.keys().take(i as int).push(self.keys()[i as int]) =~= self.keys().take(
                    i + 1,
                ));
                assert forall|q: Seq<char>| copy@.contains_key(q) <==> copy.keys().contains(q) by {
                    let ks = copy.keys();
                    if ks.contains(q) {
                        let j = choose|j: int| 0 <= j < ks.len() && ks[j] == q;
                        if j < i {
                            assert(before.keys()[j] == q);
                        }
                    }
                    if before.keys().contains(q) {
                        let j = choose|j: int|
                            0 <= j < before.keys().len() && before.keys()[j] == q;
                        assert(ks[j] == q);
                    }
                    assert(ks[i as int] == k@);
                }
            }
            i += 1;
        }
        proof {
            assert(self.keys().take(n as int) =~= self.keys());
            assert(copy@.dom() =~= self@.dom());
            assert(copy.model() =~= self.model());
        }
        copy
    }
}

/// The ids of `ks` other than `k`, in their order.
pub open spec fn without(ks: Seq<Seq<char>>, k: Seq<char>) -> Seq<Seq<char>>
    decreases ks.len(),
{
    if ks.len() == 0 {
        ks
    } else if ks.last() == k {
        without(ks.drop_last(), k)
    } else {
        without(ks.drop_last(), k).push(ks.last())
    }
}

/// Taking out an id that does not occur changes nothing.
pub proof fn lemma_without_absent(ks: Seq<Seq<char>>, k: Seq<char>)
    requires
        !ks.contains(k),
    ensures
        without(ks, k) == ks,
    decreases ks.len(),
{
    if ks.len() > 0 {
        let front = ks.drop_last();
        assert(ks[ks.len() - 1] == ks.last());
        assert forall|i: int| 0 <= i < front.len() implies front[i] != k by {
            assert(ks[i] == front[i]);
        }
        lemma_without_absent(front, k);
        assert(front.push(ks.last()) =~= ks);
    }
}

/// Taking out an id that occurs at `n` and nowhere else removes position `n`.
pub proof fn lemma_without_at(ks: Seq<Seq<char>>, k: Seq<char>, n: int)
    requires
        0 <= n < ks.len(),
        ks[n] == k,
        forall|i: int| 0 <= i < ks.len() && i != n ==> ks[i] != k,
    ensures
        without(ks, k) == ks.remove(n),
    decreases ks.len(),
{
    let front = ks.drop_last();
    if n == ks.len() - 1 {
        assert forall|i: int| 0 <= i < front.len() implies front[i] != k by {
            assert(ks[i] == front[i]);
        }
        lemma_without_absent(front, k);
        assert(ks.remove(n) =~= front);
    } else {
        lemma_without_at(front, k, n);
        assert(ks.remove(n) =~= front.remove(n).push(ks.last()));
    }
}

/// What is left once `k` is taken out holds every other id and not `k`.
pub proof fn lemma_without_contains(ks: Seq<Seq<char>>, k: Seq<char>, q: Seq<char>)
    ensures
        without(ks, k).contains(q) <==> (q != k && ks.contains(q)),
    decreases ks.len(),
{
    if ks.len() > 0 {
        let front = ks.drop_last();
        lemma_without_contains(front, k, q);
        let w = without(front, k);
        if ks.contains(q) {
            let i = choose|i: int| 0 <= i < ks.len() && ks[i] == q;
            if i < front.len() {
                assert(front[i] == q);
            }
        }
        if front.contains(q) {
            let i = choose|i: int| 0 <= i < front.len() && front[i] == q;
            assert(ks[i] == q);
        }
        assert(ks[ks.len() - 1] == ks.last());
        if ks.last() != k {
            let r = w.push(ks.last());
            assert(r[r.len() - 1] == ks.last());
            if w.contains(q) {
                let i = choose|i: int| 0 <= i < w.len() && w[i] == q;
                assert(r[i] == q);
            }
            if r.contains(q) {
                let i = choose|i: int| 0 <= i < r.len() && r[i] == q;
                if i < w.len() {
                    assert(w[i] == q);
                }
            }
        }
    }
}

} // verus!
