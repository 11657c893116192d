//! A map keyed by text that keeps its keys in the order they came.
use vstd::prelude::*;
use vstd::seq_lib::lemma_seq_contains_after_push;

use crate::text::{str_eq, texts_view};

verus! {

/// A map from text to values. The keys are distinct.
pub struct StrMap<V> {
    entries: Vec<(String, V)>,
}

impl<V: View> View for StrMap<V> {
    type V = Map<Seq<char>, V::V>;

    closed spec fn view(&self) -> Map<Seq<char>, V::V> {
        Map::new(
            |k: Seq<char>| self.keys().contains(k),
            |k: Seq<char>| self.entries@[self.keys().index_of(k)].1@,
        )
    }
}

impl<V> StrMap<V> {
    /// The keys, in the order they came.
    pub closed spec fn keys(&self) -> Seq<Seq<char>> {
        Seq::new(self.entries@.len(), |i: int| self.entries@[i].0@)
    }

    #[verifier::type_invariant]
    spec fn distinct(self) -> bool {
        self.keys().no_duplicates()
    }
}

/// The entries after `k` was given the value `v`: in the place of the one it had, or else at the
/// end.
pub open spec fn put<V>(entries: Seq<(Seq<char>, V)>, k: Seq<char>, v: V) -> Seq<(Seq<char>, V)> {
    if has_key(entries, k) {
        Seq::new(
            entries.len(),
            |i: int|
                if entries[i].0 == k {
                    (k, v)
                } else {
                    entries[i]
                },
        )
    } else {
        entries.push((k, v))
    }
}

/// Whether `k` is the key of an entry.
pub open spec fn has_key<V>(entries: Seq<(Seq<char>, V)>, k: Seq<char>) -> bool {
    exists|i: int| 0 <= i < entries.len() && (#[trigger] entries[i]).0 == k
}

/// The value of `k` among entries.
pub open spec fn lookup<V>(entries: Seq<(Seq<char>, V)>, k: Seq<char>) -> Option<V>
    decreases entries.len(),
{
    if entries.len() == 0 {
        None
    } else if entries.last().0 == k {
        Some(entries.last().1)
    } else {
        lookup(entries.drop_last(), k)
    }
}

/// The entries of other keys.
pub open spec fn drop_key<V>(entries: Seq<(Seq<char>, V)>, k: Seq<char>) -> Seq<(Seq<char>, V)> {
    entries.filter(|e: (Seq<char>, V)| e.0 != k)
}

impl<V: View> StrMap<V> {
    /// The keys with their values, in the order the keys came.
    pub closed spec fn entries(&self) -> Seq<(Seq<char>, V::V)> {
        Seq::new(self.entries@.len(), |i: int| (self.entries@[i].0@, self.entries@[i].1@))
    }

    /// An empty map.
    pub fn new() -> (m: Self)
        ensures
            m@ == Map::<Seq<char>, V::V>::empty(),
            m.entries() == Seq::<(Seq<char>, V::V)>::empty(),
    {
        let m = StrMap { entries: Vec::new() };
        assert(m.entries() =~= Seq::<(Seq<char>, V::V)>::empty());
        assert(m@ =~= Map::<Seq<char>, V::V>::empty());
        m
    }

    /// How many keys there are. Each occurs once in the order of keys, and nothing else does.
    pub fn len(&self) -> (n: usize)
        ensures
            n == self@.len(),
            n == self.keys().len(),
            self@.dom().finite(),
            self.keys().no_duplicates(),
            self.keys().to_set() == self@.dom(),
            n == self.entries().len(),
            forall|i: int|
                0 <= i < n ==> (#[trigger] self.entries()[i]) == (
                    self.keys()[i],
                    self@[self.keys()[i]],
                ),
    {
        proof {
            use_type_invariant(self);
            assert(self.keys().to_set() =~= self@.dom());
            self.keys().unique_seq_to_set();
            assert forall|i: int| 0 <= i < self.entries@.len() implies (
            #[trigger] self.entries()[i]) == (self.keys()[i], self@[self.keys()[i]]) by {
                assert(self.keys().contains(self.keys()[i]));
                assert(self.keys().index_of(self.keys()[i]) == i);
            }
        }
        self.entries.len()
    }

    fn position(&self, k: &str) -> (r: Option<usize>)
        ensures
            match r {
                Some(i) => i < self.entries@.len() && self.entries@[i as int].0@ == k@
                    && self@.contains_key(k@) && self@[k@] == self.entries@[i as int].1@,
                None => !self@.contains_key(k@) && forall|j: int|
                    0 <= j < self.entries@.len() ==> (#[trigger] self.entries@[j]).0@ != k@,
            },
    {
        proof {
            use_type_invariant(self);
        }
        let mut i: usize = 0;
        while i < self.entries.len()
            invariant
                i <= self.entries@.len(),
                self.keys().no_duplicates(),
                forall|j: int| 0 <= j < i ==> (#[trigger] self.entries@[j]).0@ != k@,
            decreases self.entries@.len() - i,
        {
            if str_eq(self.entries[i].0.as_str(), k) {
                assert(self.keys()[i as int] == k@);
                assert(self.keys().index_of(k@) == i);
                return Some(i);
            }
            i = i + 1;
        }
        assert forall|j: int| 0 <= j < self.keys().len() implies self.keys()[j] != k@ by {
            assert(self.entries@[j].0@ != k@);
        }
        None
    }

    /// The value of `k`, if it has one.
    pub fn get(&self, k: &str) -> (r: Option<&V>)
        ensures
            match r {
                Some(v) => self@.contains_key(k@) && v@ == self@[k@],
                None => !self@.contains_key(k@),
            },
            lookup(self.entries(), k@) == match r {
                Some(v) => Some(v@),
                None => None,
            },
    {
        proof {
            use_type_invariant(self);
        }
        match self.position(k) {
            Some(i) => {
                proof {
                    assert forall|j: int| i < j < self.entries().len() implies (
                    #[trigger] self.entries()[j]).0 != k@ by {
                        assert(self.keys()[i as int] != self.keys()[j]);
                    }
                    lemma_lookup_at(self.entries(), k@, i as int);
                }
                Some(&self.entries[i].1)
            },
            None => {
                proof {
                    lemma_lookup_none(self.entries(), k@);
                }
                None
            },
        }
    }

    /// Whether `k` has a value.
    pub fn contains_key(&self, k: &str) -> (r: bool)
        ensures
            r == self@.contains_key(k@),
            r == has_key(self.entries(), k@),
    {
        match self.position(k) {
            Some(i) => {
                assert(self.entries()[i as int].0 == k@);
                true
            },
            None => false,
        }
    }

    /// Gives `k` the value `v`, in place of one that it had.
    pub fn insert(&mut self, k: String, v: V)
        ensures
            final(self)@ == old(self)@.insert(k@, v@),
            final(self).entries() == put(old(self).entries(), k@, v@),
    {
        proof {
            use_type_invariant(&*self);
        }
        let pos = self.position(k.as_str());
        let mut entries: Vec<(String, V)> = Vec::new();
        std::mem::swap(&mut entries, &mut self.entries);
        let ghost before = *old(self);
        let ghost key = k@;
        match pos {
            Some(i) => {
                entries.set(i, (k, v));
            },
            None => {
                entries.push((k, v));
            },
        }
        proof {
            lemma_insert(before, entries, key, v, pos);
        }
        self.entries = entries;
        proof {
            lemma_insert(before, entries, key, v, pos);
        }
    }

    /// Takes `k` and its value out.
    pub fn remove(&mut self, k: &str) -> (r: Option<V>)
        ensures
            final(self)@ == old(self)@.remove(k@),
            final(self).entries() == drop_key(old(self).entries(), k@),
            match r {
                Some(v) => old(self)@.contains_key(k@) && v@ == old(self)@[k@],
                None => !old(self)@.contains_key(k@),
            },
    {
        proof {
            use_type_invariant(&*self);
        }
        let pos = self.position(k);
        match pos {
            None => {
                assert(self@ =~= old(self)@.remove(k@));
                proof {
                    lemma_drop_none(self.entries(), k@);
                }
                None
            },
            Some(i) => {
                let mut entries: Vec<(String, V)> = Vec::new();
                std::mem::swap(&mut entries, &mut self.entries);
                let (_, v) = entries.remove(i);
                let ghost before = *old(self);
                proof {
                    lemma_remove(before, entries, i as int);
                }
                self.entries = entries;
                proof {
                    lemma_remove(before, entries, i as int);
                }
                Some(v)
            },
        }
    }

    /// The key at place `i`.
    pub fn key_at(&self, i: usize) -> (k: &String)
        requires
            i < self.keys().len(),
        ensures
            k@ == self.keys()[i as int],
            self@.contains_key(k@),
    {
        assert(self.keys().contains(self.keys()[i as int]));
        &self.entries[i].0
    }

    /// The value of the key at place `i`.
    pub fn value_at(&self, i: usize) -> (v: &V)
        requires
            i < self.keys().len(),
        ensures
            v@ == self@[self.keys()[i as int]],
    {
        proof {
            use_type_invariant(self);
            assert(self.keys().contains(self.keys()[i as int]));
            assert(self.keys().index_of(self.keys()[i as int]) == i);
        }
        &self.entries[i].1
    }
}

/// The entries of a map whose value a predicate holds of.
pub open spec fn values_where<V>(m: Map<Seq<char>, V>, pred: spec_fn(V) -> bool) -> Map<
    Seq<char>,
    V,
> {
    Map::new(|k: Seq<char>| m.contains_key(k) && pred(m[k]), |k: Seq<char>| m[k])
}

impl<V: View> StrMap<V> {
    /// The keys whose value `test` answers `want` of, each once.
    fn keys_answering<F: Fn(&V) -> bool>(
        &self,
        test: &F,
        want: bool,
        Ghost(pred): Ghost<spec_fn(V::V) -> bool>,
    ) -> (r: Vec<String>)
        requires
            forall|v: &V| #[trigger] test.requires((v,)),
            forall|v: &V, b: bool| #[trigger] test.ensures((v,), b) ==> b == pred(v@),
        ensures
            texts_view(r@).no_duplicates(),
            texts_view(r@).to_set() == values_where(self@, |x: V::V| pred(x) == want).dom(),
    {
        let ghost answers = |x: V::V| pred(x) == want;
        let n = self.len();
        let ghost keys = self.keys();
        let mut r: Vec<String> = Vec::new();
        let mut i: usize = 0;
        while i < n
            invariant
                i <= n,
                n == keys.len(),
                keys == self.keys(),
                keys.no_duplicates(),
                forall|v: &V| #[trigger] test.requires((v,)),
                forall|v: &V, b: bool| #[trigger] test.ensures((v,), b) ==> b == pred(v@),
                texts_view(r@).no_duplicates(),
                forall|k: Seq<char>| #[trigger]
                    texts_view(r@).contains(k) <==> keys.take(i as int).contains(k) && pred(
                        self@[k],
                    ) == want,
            decreases n - i,
        {
            let ghost key = keys[i as int];
            let ghost before = texts_view(r@);
            let ghost done = keys.take(i as int);
            let kept = test(self.value_at(i)) == want;
            proof {
                assert(keys.take(i + 1) =~= done.push(key));
                assert(!done.contains(key)) by {
                    if done.contains(key) {
                        let j = choose|j: int| 0 <= j < done.len() && done[j] == key;
                        assert(keys[j] == keys[i as int]);
                    }
                }
                assert(!before.contains(key));
            }
            if kept {
                r.push(self.key_at(i).clone());
                assert(texts_view(r@) =~= before.push(key));
                assert(before.push(key).no_duplicates()) by {
                    assert forall|x: int, y: int|
                        0 <= x < before.push(key).len() && 0 <= y < before.push(key).len() && x
                            != y implies before.push(key)[x] != before.push(key)[y] by {
                        if x < before.len() {
                            assert(before.contains(before[x]));
                        }
                        if y < before.len() {
                            assert(before.contains(before[y]));
                        }
                    }
                }
            }
            assert forall|k: Seq<char>| #[trigger]
                texts_view(r@).contains(k) <==> keys.take(i + 1).contains(k) && pred(self@[k])
                    == want by {
                lemma_seq_contains_after_push(done, key, k);
                lemma_seq_contains_after_push(before, key, k);
                assert(before.contains(k) <==> done.contains(k) && pred(self@[k]) == want);
            }
            i = i + 1;
        }
        proof {
            assert(keys.take(n as int) =~= keys);
            assert forall|k: Seq<char>| keys.contains(k) <==> self@.contains_key(k) by {
                assert(keys.to_set().contains(k) <==> self@.dom().contains(k));
            }
            assert(texts_view(r@).to_set() =~= values_where(self@, answers).dom());
        }
        r
    }

    /// The keys whose value `test` holds of, each once.
    pub(crate) fn keys_where<F: Fn(&V) -> bool>(
        &self,
        test: F,
        Ghost(pred): Ghost<spec_fn(V::V) -> bool>,
    ) -> (r: Vec<String>)
        requires
            forall|v: &V| #[trigger] test.requires((v,)),
            forall|v: &V, b: bool| #[trigger] test.ensures((v,), b) ==> b == pred(v@),
        ensures
            texts_view(r@).no_duplicates(),
            texts_view(r@).to_set() == values_where(self@, pred).dom(),
    {
        let r = self.keys_answering(&test, true, Ghost(pred));
        assert(texts_view(r@).to_set() =~= values_where(self@, pred).dom());
        r
    }

    /// Takes out the entries whose value `test` does not hold of.
    pub(crate) fn retain<F: Fn(&V) -> bool>(
        &mut self,
        test: F,
        Ghost(pred): Ghost<spec_fn(V::V) -> bool>,
    )
        requires
            forall|v: &V| #[trigger] test.requires((v,)),
            forall|v: &V, b: bool| #[trigger] test.ensures((v,), b) ==> b == pred(v@),
        ensures
            final(self)@ == values_where(old(self)@, pred),
    {
        let ghost m = self@;
        let ghost fails = |x: V::V| pred(x) == false;
        let gone = self.keys_answering(&test, false, Ghost(pred));
        let ghost all = texts_view(gone@);
        let mut i: usize = 0;
        while i < gone.len()
            invariant
                i <= gone@.len(),
                all == texts_view(gone@),
                forall|k: Seq<char>| #[trigger]
                    self@.contains_key(k) <==> m.contains_key(k) && !all.take(i as int).contains(k),
                forall|k: Seq<char>| self@.contains_key(k) ==> #[trigger] self@[k] == m[k],
            decreases gone@.len() - i,
        {
            let ghost before = self@;
            let _ = self.remove(gone[i].as_str());
            proof {
                assert(all.take(i + 1) =~= all.take(i as int).push(all[i as int]));
                assert forall|k: Seq<char>| #[trigger]
                    self@.contains_key(k) <==> m.contains_key(k) && !all.take(i + 1).contains(
                        k,
                    ) by {
                    lemma_seq_contains_after_push(all.take(i as int), all[i as int], k);
                    assert(before.contains_key(k) <==> m.contains_key(k) && !all.take(
                        i as int,
                    ).contains(k));
                }
            }
            i = i + 1;
        }
        proof {
            assert(all.take(all.len() as int) =~= all);
            assert forall|k: Seq<char>| all.contains(k) <==> m.contains_key(k) && !pred(m[k]) by {
                assert(all.to_set().contains(k) <==> values_where(m, fails).dom().contains(k));
            }
            assert(self@ =~= values_where(m, pred));
        }
    }
}

spec fn map_of<V: View>(entries: Vec<(String, V)>) -> StrMap<V> {
    StrMap { entries }
}

proof fn lemma_insert<V: View>(
    before: StrMap<V>,
    entries: Vec<(String, V)>,
    key: Seq<char>,
    v: V,
    pos: Option<usize>,
)
    requires
        before.keys().no_duplicates(),
        match pos {
            Some(i) => i < before.entries@.len() && before.entries@[i as int].0@ == key
                && entries@.len() == before.entries@.len() && entries@[i as int].0@ == key
                && entries@[i as int].1 == v && (forall|j: int|
                0 <= j < entries@.len() && j != i ==> entries@[j] == before.entries@[j]),
            None => entries@.len() == before.entries@.len() + 1 && entries@.last().0@ == key
                && entries@.last().1 == v && (forall|j: int|
                0 <= j < before.entries@.len() ==> entries@[j] == before.entries@[j]
                    && before.entries@[j].0@ != key),
        },
    ensures
        map_of(entries).keys().no_duplicates(),
        map_of(entries)@ =~= before@.insert(key, v@),
        map_of(entries).entries() =~= put(before.entries(), key, v@),
{
    let after = map_of(entries);
    let m = after@;
    let n = before@.insert(key, v@);
    assert forall|i: int, j: int|
        0 <= i < after.keys().len() && 0 <= j < after.keys().len() && i != j implies after.keys()[i]
        != after.keys()[j] by {
        match pos {
            Some(p) => {
                assert(before.keys()[i] == after.keys()[i]);
                assert(before.keys()[j] == after.keys()[j]);
            },
            None => {
                if i < before.keys().len() && j < before.keys().len() {
                    assert(before.keys()[i] == after.keys()[i]);
                    assert(before.keys()[j] == after.keys()[j]);
                }
            },
        }
    }
    assert(map_of(entries).entries() =~= put(before.entries(), key, v@)) by {
        match pos {
            Some(p) => {
                assert(before.entries()[p as int].0 == key);
                assert forall|i: int| 0 <= i < before.entries().len() && i != p implies (
                #[trigger] before.entries()[i]).0 != key by {
                    assert(before.keys()[i] != before.keys()[p as int]);
                }
            },
            None => {
                assert forall|i: int| 0 <= i < before.entries().len() implies (
                #[trigger] before.entries()[i]).0 != key by {
                    assert(entries@[i] == before.entries@[i]);
                }
            },
        }
    }
    let at: int = match pos {
        Some(p) => p as int,
        None => before.entries@.len() as int,
    };
    assert(after.keys()[at] == key);
    assert(after.keys().index_of(key) == at);
    assert forall|k: Seq<char>| #[trigger] m.contains_key(k) == n.contains_key(k) by {
        if before.keys().contains(k) {
            let i = before.keys().index_of(k);
            assert(after.keys()[i] == k);
        }
        if after.keys().contains(k) && k != key {
            let i = after.keys().index_of(k);
            assert(before.keys()[i] == k);
        }
    }
    assert forall|k: Seq<char>| m.contains_key(k) implies #[trigger] m[k] == n[k] by {
        if k != key {
            let i = after.keys().index_of(k);
            assert(before.keys()[i] == k);
            assert(before.keys().index_of(k) == i);
        }
    }
}

proof fn lemma_remove<V: View>(before: StrMap<V>, entries: Vec<(String, V)>, at: int)
    requires
        before.keys().no_duplicates(),
        0 <= at < before.entries@.len(),
        entries@ == before.entries@.remove(at),
    ensures
        map_of(entries).keys().no_duplicates(),
        map_of(entries)@ =~= before@.remove(before.entries@[at].0@),
        map_of(entries).entries() =~= drop_key(before.entries(), before.entries@[at].0@),
{
    let after = map_of(entries);
    let key = before.entries@[at].0@;
    let m = after@;
    let n = before@.remove(key);
    assert(after.keys() =~= before.keys().remove(at));
    assert(after.entries() =~= before.entries().remove(at));
    assert forall|i: int| 0 <= i < before.entries().len() && i != at implies (
    #[trigger] before.entries()[i]).0 != key by {
        assert(before.keys()[i] != before.keys()[at]);
    }
    lemma_drop_one(before.entries(), key, at);
    assert forall|k: Seq<char>| #[trigger] m.contains_key(k) == n.contains_key(k) by {
        if before.keys().contains(k) && k != key {
            let i = before.keys().index_of(k);
            assert(before.keys()[at] == key);
            if i < at {
                assert(after.keys()[i] == k);
            } else {
                assert(after.keys()[i - 1] == k);
            }
        }
        if after.keys().contains(k) {
            let i = after.keys().index_of(k);
            let j = if i < at { i } else { i + 1 };
            assert(before.keys()[j] == k);
            assert(before.keys()[at] == key);
        }
    }
    assert forall|k: Seq<char>| m.contains_key(k) implies #[trigger] m[k] == n[k] by {
        let i = after.keys().index_of(k);
        let j = if i < at { i } else { i + 1 };
        assert(before.keys()[j] == k);
        assert(before.keys().index_of(k) == j);
    }
}

proof fn lemma_drop_none<V>(entries: Seq<(Seq<char>, V)>, k: Seq<char>)
    requires
        forall|i: int| 0 <= i < entries.len() ==> (#[trigger] entries[i]).0 != k,
    ensures
        drop_key(entries, k) == entries,
    decreases entries.len(),
{
    reveal(Seq::filter);
    if entries.len() > 0 {
        assert(entries[entries.len() - 1].0 != k);
        assert forall|i: int| 0 <= i < entries.drop_last().len() implies (
        #[trigger] entries.drop_last()[i]).0 != k by {
            assert(entries[i].0 != k);
        }
        lemma_drop_none(entries.drop_last(), k);
        assert(entries.drop_last().push(entries.last()) =~= entries);
    }
}

proof fn lemma_drop_one<V>(entries: Seq<(Seq<char>, V)>, k: Seq<char>, at: int)
    requires
        0 <= at < entries.len(),
        entries[at].0 == k,
        forall|i: int| 0 <= i < entries.len() && i != at ==> (#[trigger] entries[i]).0 != k,
    ensures
        drop_key(entries, k) == entries.remove(at),
    decreases entries.len(),
{
    reveal(Seq::filter);
    let init = entries.drop_last();
    assert forall|i: int| 0 <= i < init.len() && i != at implies (#[trigger] init[i]).0 != k by {
        assert(entries[i].0 != k);
    }
    if at == entries.len() - 1 {
        lemma_drop_none(init, k);
        assert(entries.remove(at) =~= init);
    } else {
        assert(entries[entries.len() - 1].0 != k);
        lemma_drop_one(init, k, at);
        assert(init.remove(at).push(entries.last()) =~= entries.remove(at));
    }
}

proof fn lemma_lookup_at<V>(entries: Seq<(Seq<char>, V)>, k: Seq<char>, i: int)
    requires
        0 <= i < entries.len(),
        entries[i].0 == k,
        forall|j: int| i < j < entries.len() ==> (#[trigger] entries[j]).0 != k,
    ensures
        lookup(entries, k) == Some(entries[i].1),
    decreases entries.len(),
{
    if i < entries.len() - 1 {
        assert(entries[entries.len() - 1].0 != k);
        lemma_lookup_at(entries.drop_last(), k, i);
    }
}

proof fn lemma_lookup_none<V>(entries: Seq<(Seq<char>, V)>, k: Seq<char>)
    requires
        forall|j: int| 0 <= j < entries.len() ==> (#[trigger] entries[j]).0 != k,
    ensures
        lookup(entries, k) is None,
    decreases entries.len(),
{
    if entries.len() > 0 {
        assert(entries[entries.len() - 1].0 != k);
        assert forall|j: int| 0 <= j < entries.drop_last().len() implies (
        #[trigger] entries.drop_last()[j]).0 != k by {
            assert(entries[j].0 != k);
        }
        lemma_lookup_none(entries.drop_last(), k);
    }
}

/// There is a value for a key exactly where there is an entry for it.
pub proof fn lemma_lookup_has_key<V>(entries: Seq<(Seq<char>, V)>, k: Seq<char>)
    ensures
        lookup(entries, k) is Some <==> has_key(entries, k),
    decreases entries.len(),
{
    if entries.len() > 0 {
        let init = entries.drop_last();
        lemma_lookup_has_key(init, k);
        if has_key(init, k) {
            let i = choose|i: int| 0 <= i < init.len() && (#[trigger] init[i]).0 == k;
            assert(entries[i].0 == k);
        }
        if has_key(entries, k) && entries.last().0 != k {
            let i = choose|i: int| 0 <= i < entries.len() && (#[trigger] entries[i]).0 == k;
            assert(init[i].0 == k);
        }
        assert(entries[entries.len() - 1] == entries.last());
    }
}

/// Where no key occurs twice, dropping the key at a place is dropping that place.
pub proof fn lemma_drop_key_at<V>(b: Seq<(Seq<char>, V)>, i: int)
    requires
        0 <= i < b.len(),
        forall|x: int, y: int|
            0 <= x < b.len() && 0 <= y < b.len() && x != y ==> (#[trigger] b[x]).0 != (
            #[trigger] b[y]).0,
    ensures
        drop_key(b, b[i].0) == b.remove(i),
    decreases b.len(),
{
    let key = b[i].0;
    let init = b.drop_last();
    reveal(Seq::filter);
    if i == b.len() - 1 {
        assert forall|k: int| 0 <= k < init.len() implies (#[trigger] init[k]).0 != key by {
            assert(b[k].0 != b[i].0);
        }
        lemma_drop_key_none(init, key);
        assert(drop_key(b, key) == drop_key(init, key));
        assert(b.remove(i) =~= init);
    } else {
        assert(init[i] == b[i]);
        assert forall|x: int, y: int|
            0 <= x < init.len() && 0 <= y < init.len() && x != y implies (#[trigger] init[x]).0 != (
        #[trigger] init[y]).0 by {
            assert(b[x].0 != b[y].0);
        }
        lemma_drop_key_at(init, i);
        assert(b.last().0 != key) by {
            assert(b[b.len() - 1].0 != b[i].0);
        }
        assert(drop_key(b, key) == drop_key(init, key).push(b.last()));
        assert(b.remove(i) =~= init.remove(i).push(b.last()));
    }
}

/// Dropping a key that does not occur changes nothing.
pub proof fn lemma_drop_key_none<V>(b: Seq<(Seq<char>, V)>, key: Seq<char>)
    requires
        forall|k: int| 0 <= k < b.len() ==> (#[trigger] b[k]).0 != key,
    ensures
        drop_key(b, key) == b,
    decreases b.len(),
{
    reveal(Seq::filter);
    if b.len() > 0 {
        let init = b.drop_last();
        assert forall|k: int| 0 <= k < init.len() implies (#[trigger] init[k]).0 != key by {
            assert(b[k].0 != key);
        }
        lemma_drop_key_none(init, key);
        assert(b[b.len() - 1].0 != key);
        assert(drop_key(b, key) == drop_key(init, key).push(b.last()));
        assert(init.push(b.last()) =~= b);
    }
}

} // verus!
