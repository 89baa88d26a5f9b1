use vstd::prelude::*;

use crate::text::{lemma_lex_asym, lemma_lex_total, lemma_lex_trans, lex_lt, same_text, text_less};

verus! {

/// A map keyed by name that keeps each key once.
#[derive(Clone, Debug)]
pub struct Table<V> {
    pub entries: Vec<(String, V)>,
}

/// Whether a sequence of names is in strictly ascending lexicographic order.
pub open spec fn strictly_sorted(names: Seq<String>) -> bool {
    forall|i: int, j: int| 0 <= i < j < names.len() ==> lex_lt(names[i]@, names[j]@)
}

/// Two strictly sorted sequences that hold the same names are equal.
pub proof fn lemma_sorted_unique(a: Seq<Seq<char>>, b: Seq<Seq<char>>)
    requires
        forall|i: int, j: int| 0 <= i < j < a.len() ==> lex_lt(a[i], a[j]),
        forall|i: int, j: int| 0 <= i < j < b.len() ==> lex_lt(b[i], b[j]),
        forall|x: Seq<char>| a.contains(x) <==> b.contains(x),
    ensures
        a == b,
    decreases a.len(),
{
    if a.len() == 0 {
        if b.len() > 0 {
            assert(b.contains(b[0]));
        }
        assert(a =~= b);
    } else {
        assert(a.contains(a[0]));
        assert(b.len() > 0);
        assert(b.contains(b[0]));
        let j = choose|j: int| 0 <= j < b.len() && b[j] == a[0];
        let i = choose|i: int| 0 <= i < a.len() && a[i] == b[0];
        if i > 0 && j > 0 {
            lemma_lex_asym(a[0], b[0]);
        }
        assert(a[0] == b[0]);
        let ta = a.drop_first();
        let tb = b.drop_first();
        assert forall|x: Seq<char>| ta.contains(x) <==> tb.contains(x) by {
            if ta.contains(x) {
                let k = choose|k: int| 0 <= k < ta.len() && ta[k] == x;
                lemma_lex_asym(a[0], x);
                assert(a.contains(x));
                let m = choose|m: int| 0 <= m < b.len() && b[m] == x;
                assert(m != 0);
                assert(tb[m - 1] == x);
            }
            if tb.contains(x) {
                let k = choose|k: int| 0 <= k < tb.len() && tb[k] == x;
                lemma_lex_asym(b[0], x);
                assert(b.contains(x));
                let m = choose|m: int| 0 <= m < a.len() && a[m] == x;
                assert(m != 0);
                assert(ta[m - 1] == x);
            }
        }
        lemma_sorted_unique(ta, tb);
        assert(a =~= seq![a[0]] + ta);
        assert(b =~= seq![b[0]] + tb);
    }
}

impl<V> Table<V> {
    /// No key occurs twice.
    pub open spec fn wf(&self) -> bool {
        forall|i: int, j: int|
            0 <= i < self.entries@.len() && 0 <= j < self.entries@.len() && i != j
                ==> self.entries@[i].0@ != self.entries@[j].0@
    }

    pub open spec fn has(&self, k: Seq<char>) -> bool {
        exists|i: int| 0 <= i < self.entries@.len() && self.entries@[i].0@ == k
    }

    pub open spec fn index_of(&self, k: Seq<char>) -> int {
        choose|i: int| 0 <= i < self.entries@.len() && self.entries@[i].0@ == k
    }

    pub proof fn lemma_index_of(&self, i: int)
        requires
            self.wf(),
            0 <= i < self.entries@.len(),
        ensures
            self.index_of(self.entries@[i].0@) == i,
            self.has(self.entries@[i].0@),
    {
    }

    pub fn new() -> (r: Self)
        ensures
            r.wf(),
            r@ == Map::<Seq<char>, V>::empty(),
    {
        let r = Table { entries: Vec::new() };
        assert(r@ =~= Map::<Seq<char>, V>::empty());
        r
    }

    pub fn len(&self) -> (r: usize)
        requires
            self.wf(),
        ensures
            r == self@.len(),
    {
        proof { self.lemma_len(); }
        self.entries.len()
    }

    /// The number of keys is the number of entries.
    proof fn lemma_len(&self)
        requires
            self.wf(),
        ensures
            self@.dom().len() == self.entries@.len(),
            self@.dom().finite(),
    {
        let keys = self.entries@.map_values(|e: (String, V)| e.0@);
        assert(keys.no_duplicates()) by {
            assert forall|i: int, j: int| 0 <= i < keys.len() && 0 <= j < keys.len() && i != j
                implies keys[i] != keys[j] by {}
        }
        keys.unique_seq_to_set();
        assert(self@.dom() =~= keys.to_set()) by {
            assert forall|k: Seq<char>| self@.dom().contains(k) implies keys.to_set().contains(k) by {
                let i = self.index_of(k);
                assert(keys[i] == k);
            }
        }
    }

    fn find(&self, key: &str) -> (r: Option<usize>)
        ensures
            match r {
                Some(i) => i < self.entries@.len() && self.entries@[i as int].0@ == key@,
                None => !self.has(key@),
            },
    {
        let mut i: usize = 0;
        while i < self.entries.len()
            invariant
                i <= self.entries@.len(),
                forall|j: int| 0 <= j < i ==> self.entries@[j].0@ != key@,
            decreases self.entries@.len() - i,
        {
            if same_text(self.entries[i].0.as_str(), key) {
                return Some(i);
            }
            i = i + 1;
        }
        None
    }

    pub fn contains_key(&self, key: &str) -> (r: bool)
        ensures
            r == self@.contains_key(key@),
    {
        self.find(key).is_some()
    }

    pub fn get(&self, key: &str) -> (r: Option<&V>)
        requires
            self.wf(),
        ensures
            match r {
                Some(v) => self@.contains_key(key@) && self@[key@] == *v,
                None => !self@.contains_key(key@),
            },
    {
        match self.find(key) {
            Some(i) => {
                proof { self.lemma_index_of(i as int); }
                Some(&self.entries[i].1)
            },
            None => None,
        }
    }

    /// Sets the value of `key`, replacing any earlier one.
    pub fn insert(&mut self, key: String, value: V)
        requires
            old(self).wf(),
        ensures
            final(self).wf(),
            final(self)@ == old(self)@.insert(key@, value),
    {
        let ghost k = key@;
        match self.find(key.as_str()) {
            Some(i) => {
                self.entries.set(i, (key, value));
                proof {
                    let o = *old(self);
                    assert forall|q: Seq<char>| #![auto] self.has(q) == (o.has(q) || q == k) by {
                        if o.has(q) {
                            let j = o.index_of(q);
                            assert(self.entries@[j].0@ == q || j == i);
                        }
                        if self.has(q) {
                            let j = self.index_of(q);
                            assert(o.entries@[j].0@ == q || j == i);
                        }
                    }
                    assert forall|q: Seq<char>| #![auto] self.has(q) && q != k
                        implies self.entries@[self.index_of(q)].1 == o.entries@[o.index_of(q)].1 by {
                        let j = self.index_of(q);
                        o.lemma_index_of(j);
                    }
                    self.lemma_index_of(i as int);
                    assert(self@ =~= o@.insert(k, value));
                }
            },
            None => {
                self.entries.push((key, value));
                proof {
                    let o = *old(self);
                    let n = o.entries@.len() as int;
                    assert forall|q: Seq<char>| #![auto] self.has(q) == (o.has(q) || q == k) by {
                        if o.has(q) {
                            let j = o.index_of(q);
                            assert(self.entries@[j].0@ == q);
                        }
                        if self.has(q) {
                            let j = self.index_of(q);
                            assert(j == n || o.entries@[j].0@ == q);
                        }
                        if q == k {
                            assert(self.entries@[n].0@ == q);
                        }
                    }
                    assert forall|q: Seq<char>| #![auto] self.has(q) && q != k
                        implies self.entries@[self.index_of(q)].1 == o.entries@[o.index_of(q)].1 by {
                        let j = self.index_of(q);
                        o.lemma_index_of(j);
                    }
                    self.lemma_index_of(n);
                    assert(self@ =~= o@.insert(k, value));
                }
            },
        }
    }

    /// Drops `key` and its value, if present.
    pub fn remove(&mut self, key: &str)
        requires
            old(self).wf(),
        ensures
            final(self).wf(),
            final(self)@ == old(self)@.remove(key@),
    {
        match self.find(key) {
            Some(i) => {
                let _ = self.entries.remove(i);
                proof {
                    let o = *old(self);
                    assert forall|q: Seq<char>| #![auto] self.has(q) == (o.has(q) && q != key@) by {
                        if o.has(q) && q != key@ {
                            let j = o.index_of(q);
                            if j < i {
                                assert(self.entries@[j].0@ == q);
                            } else {
                                assert(self.entries@[j - 1].0@ == q);
                            }
                        }
                        if self.has(q) {
                            let j = self.index_of(q);
                            if j < i {
                                assert(o.entries@[j].0@ == q);
                            } else {
                                assert(o.entries@[j + 1].0@ == q);
                            }
                        }
                    }
                    assert forall|q: Seq<char>| #![auto] self.has(q)
                        implies self.entries@[self.index_of(q)].1 == o.entries@[o.index_of(q)].1 by {
                        let j = self.index_of(q);
                        if j < i {
                            o.lemma_index_of(j);
                        } else {
                            o.lemma_index_of(j + 1);
                        }
                    }
                    assert(self@ =~= o@.remove(key@));
                }
            },
            None => {
                assert(self@ =~= old(self)@.remove(key@));
            },
        }
    }

    /// All keys, in ascending lexicographic order.
    pub fn sorted_keys(&self) -> (r: Vec<String>)
        requires
            self.wf(),
        ensures
            strictly_sorted(r@),
            r@.len() == self@.len(),
            forall|i: int| 0 <= i < r@.len() ==> self@.contains_key(#[trigger] r@[i]@),
            forall|k: Seq<char>| self@.contains_key(k) ==> exists|i: int| 0 <= i < r@.len() && r@[i]@ == k,
    {
        proof { self.lemma_len(); }
        let mut out: Vec<String> = Vec::new();
        let mut n: usize = 0;
        while n < self.entries.len()
            invariant
                self.wf(),
                n <= self.entries@.len(),
                out@.len() == n,
                strictly_sorted(out@),
                forall|i: int| 0 <= i < out@.len() ==> exists|j: int| 0 <= j < n && #[trigger] out@[i]@ == self.entries@[j].0@,
                forall|j: int| #![trigger self.entries@[j]] 0 <= j < n ==> exists|i: int| 0 <= i < out@.len() && #[trigger] out@[i]@ == self.entries@[j].0@,
            decreases self.entries@.len() - n,
        {
            let key = self.entries[n].0.clone();
            let mut p: usize = 0;
            while p < out.len() && text_less(out[p].as_str(), key.as_str())
                invariant
                    p <= out@.len(),
                    forall|i: int| 0 <= i < p ==> lex_lt(#[trigger] out@[i]@, key@),
                decreases out@.len() - p,
            {
                p = p + 1;
            }
            proof {
                assert forall|i: int| p <= i < out@.len() implies lex_lt(key@, #[trigger] out@[i]@) by {
                    let j = choose|j: int| 0 <= j < n && out@[i]@ == self.entries@[j].0@;
                    assert(self.entries@[j].0@ != self.entries@[n as int].0@);
                    lemma_lex_total(key@, out@[p as int]@);
                    if i > p {
                        lemma_lex_trans(key@, out@[p as int]@, out@[i]@);
                    }
                }
            }
            let ghost before = out@;
            out.insert(p, key);
            proof {
                assert forall|a: int, b: int| 0 <= a < b < out@.len() implies lex_lt(out@[a]@, out@[b]@) by {
                    if a < p && b > p {
                        lemma_lex_trans(out@[a]@, key@, out@[b]@);
                    }
                }
                assert forall|i: int| 0 <= i < out@.len() implies exists|j: int| 0 <= j < n + 1 && #[trigger] out@[i]@ == self.entries@[j].0@ by {
                    if i < p {
                        assert(out@[i] == before[i]);
                    } else if i > p {
                        assert(out@[i] == before[i - 1]);
                    } else {
                        assert(out@[i]@ == self.entries@[n as int].0@);
                    }
                }
                assert forall|j: int| #![trigger self.entries@[j]] 0 <= j < n + 1 implies exists|i: int| 0 <= i < out@.len() && #[trigger] out@[i]@ == self.entries@[j].0@ by {
                    if j < n {
                        let i = choose|i: int| 0 <= i < before.len() && before[i]@ == self.entries@[j].0@;
                        if i < p {
                            assert(out@[i] == before[i]);
                        } else {
                            assert(out@[i + 1] == before[i]);
                        }
                    } else {
                        assert(out@[p as int]@ == self.entries@[j].0@);
                    }
                }
            }
            n = n + 1;
        }
        proof {
            assert forall|i: int| 0 <= i < out@.len() implies self@.contains_key(#[trigger] out@[i]@) by {
                let j = choose|j: int| 0 <= j < n && out@[i]@ == self.entries@[j].0@;
                self.lemma_index_of(j);
            }
            assert forall|k: Seq<char>| self@.contains_key(k) implies exists|i: int| 0 <= i < out@.len() && out@[i]@ == k by {
                let j = self.index_of(k);
                let i = choose|i: int| 0 <= i < out@.len() && #[trigger] out@[i]@ == self.entries@[j].0@;
            }
        }
        out
    }
}

impl<V> View for Table<V> {
    type V = Map<Seq<char>, V>;

    open spec fn view(&self) -> Map<Seq<char>, V> {
        Map::new(|k: Seq<char>| self.has(k), |k: Seq<char>| self.entries@[self.index_of(k)].1)
    }
}

} // verus!
