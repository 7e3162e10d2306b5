//! A map keyed by text that keeps its keys in order.

use vstd::prelude::*;

use crate::order::{
    before, lemma_before_irreflexive, lemma_before_total, lemma_before_transitive, text_before,
};
use crate::text::{str_eq, texts};

verus! {

/// Whether the texts come in strictly ascending order.
pub open spec fn ascending(keys: Seq<Seq<char>>) -> bool {
    forall|i: int, j: int| 0 <= i < j < keys.len() ==> before(#[trigger] keys[i], #[trigger] keys[j])
}

/// A map from texts to values. Its keys stand in ascending order, each once.
pub struct TextMap<V> {
    entries: Vec<(String, V)>,
}

impl<V> TextMap<V> {
    /// The keys in the order in which they are held.
    pub closed spec fn order(&self) -> Seq<Seq<char>> {
        self.entries@.map_values(|e: (String, V)| e.0@)
    }

    /// Whether the keys are in ascending order.
    pub open spec fn wf(&self) -> bool {
        ascending(self.order())
    }

    /// The place of a key.
    closed spec fn place(&self, key: Seq<char>) -> int {
        choose|i: int| 0 <= i < self.order().len() && self.order()[i] == key
    }

    proof fn lemma_place(&self, i: int)
        requires
            self.wf(),
            0 <= i < self.entries@.len(),
        ensures
            self.place(self.entries@[i].0@) == i,
            self@.contains_key(self.entries@[i].0@),
            self@[self.entries@[i].0@] == self.entries@[i].1,
    {
        let key = self.entries@[i].0@;
        assert(self.order()[i] == key);
        let k = self.place(key);
        assert(self.order()[k] == key);
        lemma_before_irreflexive(key);
        if k < i {
            assert(before(self.order()[k], self.order()[i]));
        }
        if i < k {
            assert(before(self.order()[i], self.order()[k]));
        }
        assert(self.order().contains(key));
    }
}

impl<V> View for TextMap<V> {
    type V = Map<Seq<char>, V>;

    closed spec fn view(&self) -> Map<Seq<char>, V> {
        Map::new(
            |k: Seq<char>| self.order().contains(k),
            |k: Seq<char>| self.entries@[self.place(k)].1,
        )
    }
}

impl<V> TextMap<V> {
    /// The keys of a map are those in its order.
    pub proof fn lemma_keys(&self)
        ensures
            forall|k: Seq<char>| #[trigger] self@.contains_key(k) <==> self.order().contains(k),
    {
    }

    /// An empty map.
    pub fn new() -> (r: Self)
        ensures
            r.wf(),
            r@ == Map::<Seq<char>, V>::empty(),
    {
        let r = TextMap { entries: Vec::new() };
        assert(r.order() =~= Seq::<Seq<char>>::empty());
        assert(r@ =~= Map::<Seq<char>, V>::empty());
        r
    }

    /// The number of keys.
    pub fn len(&self) -> (r: usize)
        ensures
            r == self.order().len(),
    {
        self.entries.len()
    }

    /// The key at place `i`.
    pub fn key_at(&self, i: usize) -> (r: &str)
        requires
            i < self.order().len(),
        ensures
            r@ == self.order()[i as int],
    {
        self.entries[i].0.as_str()
    }

    /// The value at place `i`.
    pub fn value_at(&self, i: usize) -> (r: &V)
        requires
            self.wf(),
            i < self.order().len(),
        ensures
            self@.contains_key(self.order()[i as int]),
            *r == self@[self.order()[i as int]],
    {
        proof {
            self.lemma_place(i as int);
        }
        &self.entries[i].1
    }

    /// The place of `key`, where the map has it.
    fn find(&self, key: &str) -> (r: Option<usize>)
        requires
            self.wf(),
        ensures
            match r {
                Some(i) => i < self.entries@.len() && self.entries@[i as int].0@ == key@
                    && self@.contains_key(key@) && self@[key@] == self.entries@[i as int].1,
                None => !self@.contains_key(key@),
            },
    {
        let mut i: usize = 0;
        while i < self.entries.len()
            invariant
                self.wf(),
                i <= self.entries.len(),
                forall|k: int| 0 <= k < i ==> #[trigger] self.order()[k] != key@,
            decreases self.entries.len() - i,
        {
            if str_eq(self.entries[i].0.as_str(), key) {
                proof {
                    self.lemma_place(i as int);
                }
                return Some(i);
            }
            assert(self.order()[i as int] != key@);
            i += 1;
        }
        None
    }

    /// The value of `key`, where the map has it.
    pub fn get(&self, key: &str) -> (r: Option<&V>)
        requires
            self.wf(),
        ensures
            match r {
                Some(v) => self@.contains_key(key@) && *v == self@[key@],
                None => !self@.contains_key(key@),
            },
    {
        match self.find(key) {
            Some(i) => Some(&self.entries[i].1),
            None => None,
        }
    }

    /// Whether the map has `key`.
    pub fn contains_key(&self, key: &str) -> (r: bool)
        requires
            self.wf(),
        ensures
            r == self@.contains_key(key@),
    {
        self.find(key).is_some()
    }

    /// Removes `key`; gives the value that it had.
    pub fn remove(&mut self, key: &str) -> (r: Option<V>)
        requires
            old(self).wf(),
        ensures
            final(self).wf(),
            final(self)@ == old(self)@.remove(key@),
            match r {
                Some(v) => old(self)@.contains_key(key@) && v == old(self)@[key@],
                None => !old(self)@.contains_key(key@),
            },
    {
        match self.find(key) {
            Some(i) => {
                let ghost was = *self;
                let (k, v) = self.entries.remove(i);
                proof {
                    assert(self.order() =~= was.order().remove(i as int));
                    assert(self.wf());
                    was.lemma_place(i as int);
                    assert forall|x: Seq<char>| #[trigger]
                        self@.contains_key(x) <==> was@.remove(key@).contains_key(x) by {
                        if was@.contains_key(x) && x != key@ {
                            let p = choose|p: int|
                                0 <= p < was.order().len() && was.order()[p] == x;
                            let q = if p < i {
                                p
                            } else {
                                p - 1
                            };
                            assert(self.order()[q] == x);
                        }
                        if self.order().contains(x) {
                            let q = choose|q: int|
                                0 <= q < self.order().len() && self.order()[q] == x;
                            let p = if q < i {
                                q
                            } else {
                                q + 1
                            };
                            assert(was.order()[p] == x);
                            was.lemma_place(p);
                        }
                    }
                    assert forall|x: Seq<char>| #[trigger] self@.contains_key(x) implies self@[x]
                        == was@[x] by {
                        let q = choose|q: int| 0 <= q < self.order().len() && self.order()[q] == x;
                        let p = if q < i {
                            q
                        } else {
                            q + 1
                        };
                        self.lemma_place(q);
                        was.lemma_place(p);
                    }
                    assert(self@ =~= was@.remove(key@));
                }
                Some(v)
            },
            None => {
                assert(self@ =~= old(self)@.remove(key@));
                None
            },
        }
    }

    /// Gives `key` the value.
    pub fn insert(&mut self, key: String, value: V)
        requires
            old(self).wf(),
        ensures
            final(self).wf(),
            final(self)@ == old(self)@.insert(key@, value),
    {
        let gone = self.remove(key.as_str());
        let ghost was = *self;
        let ghost k = key@;
        let mut i: usize = 0;
        while i < self.entries.len() && text_before(self.entries[i].0.as_str(), key.as_str())
            invariant
                *self == was,
                self.wf(),
                key@ == k,
                i <= self.entries.len(),
                forall|j: int| 0 <= j < i ==> before(#[trigger] self.order()[j], k),
            decreases self.entries.len() - i,
        {
            assert(before(self.order()[i as int], k));
            i += 1;
        }
        proof {
            assert forall|j: int| i <= j < was.order().len() implies before(
                k,
                #[trigger] was.order()[j],
            ) by {
                let first = was.order()[i as int];
                assert(was.order().contains(first));
                lemma_before_total(first, k);
                assert(!was@.contains_key(k));
                assert(before(k, first));
                if i < j {
                    lemma_before_transitive(k, first, was.order()[j]);
                }
            }
        }
        self.entries.insert(i, (key, value));
        proof {
            assert(self.order() =~= was.order().insert(i as int, k));
            assert(self.wf());
            self.lemma_place(i as int);
            assert forall|x: Seq<char>| #[trigger]
                self@.contains_key(x) <==> was@.insert(k, value).contains_key(x) by {
                if was@.contains_key(x) {
                    let p = choose|p: int| 0 <= p < was.order().len() && was.order()[p] == x;
                    let q = if p < i {
                        p
                    } else {
                        p + 1
                    };
                    assert(self.order()[q] == x);
                }
                if self.order().contains(x) && x != k {
                    let q = choose|q: int| 0 <= q < self.order().len() && self.order()[q] == x;
                    let p = if q < i {
                        q
                    } else {
                        q - 1
                    };
                    assert(was.order()[p] == x);
                }
            }
            assert forall|x: Seq<char>| #[trigger] self@.contains_key(x) implies self@[x]
                == was@.insert(k, value)[x] by {
                if x != k {
                    let q = choose|q: int| 0 <= q < self.order().len() && self.order()[q] == x;
                    let p = if q < i {
                        q
                    } else {
                        q - 1
                    };
                    self.lemma_place(q);
                    was.lemma_place(p);
                }
            }
            assert(self@ =~= was@.insert(k, value));
            assert(self@ =~= old(self)@.insert(k, value));
        }
    }

    /// The keys in ascending order.
    pub fn keys(&self) -> (r: Vec<String>)
        ensures
            texts(r@) == self.order(),
    {
        let mut out: Vec<String> = Vec::new();
        let mut i: usize = 0;
        while i < self.entries.len()
            invariant
                i <= self.entries.len(),
                texts(out@) == self.order().take(i as int),
            decreases self.entries.len() - i,
        {
            let ghost so_far = texts(out@);
            out.push(self.entries[i].0.clone());
            assert(texts(out@) =~= so_far.push(self.order()[i as int]));
            i += 1;
            assert(texts(out@) =~= self.order().take(i as int));
        }
        assert(self.order().take(i as int) =~= self.order());
        out
    }
}

} // verus!
