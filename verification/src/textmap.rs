//! A map from text to values.

use crate::text::{same_text, texts};
use vstd::prelude::*;

verus! {

/// A key with its value.
#[derive(Debug, Clone)]
pub struct Entry<V> {
    key: String,
    value: V,
}

/// A map whose keys are text. No key occurs twice.
#[derive(Debug, Clone)]
pub struct TextMap<V> {
    entries: Vec<Entry<V>>,
}

/// The value of the entry with this key.
spec fn lookup<V>(entries: Seq<Entry<V>>, key: Seq<char>) -> V {
    entries[choose|i: int| 0 <= i < entries.len() && (#[trigger] entries[i]).key@ == key].value
}

/// Some entry has this key.
spec fn has_key<V>(entries: Seq<Entry<V>>, key: Seq<char>) -> bool {
    exists|i: int| 0 <= i < entries.len() && (#[trigger] entries[i]).key@ == key
}

impl<V> TextMap<V> {
    /// No key occurs twice.
    pub closed spec fn wf(self) -> bool {
        forall|i: int, j: int|
            0 <= i < j < self.entries@.len() ==> (#[trigger] self.entries@[i]).key@ != (
            #[trigger] self.entries@[j]).key@
    }
}

impl<V> View for TextMap<V> {
    type V = Map<Seq<char>, V>;

    closed spec fn view(&self) -> Map<Seq<char>, V> {
        Map::new(
            |key: Seq<char>| has_key(self.entries@, key),
            |key: Seq<char>| lookup(self.entries@, key),
        )
    }
}

impl<V> TextMap<V> {
    proof fn lemma_entry(self, i: int)
        requires
            self.wf(),
            0 <= i < self.entries@.len(),
        ensures
            self@.dom().contains(self.entries@[i].key@),
            self@[self.entries@[i].key@] == self.entries@[i].value,
    {
        let key = self.entries@[i].key@;
        assert(has_key(self.entries@, key));
        let k = choose|k: int|
            0 <= k < self.entries@.len() && (#[trigger] self.entries@[k]).key@ == key;
        assert(k == i);
    }

    /// An empty map.
    pub fn new() -> (r: TextMap<V>)
        ensures
            r.wf(),
            r@ == Map::<Seq<char>, V>::empty(),
    {
        let r = TextMap { entries: Vec::new() };
        assert(r@ =~= Map::<Seq<char>, V>::empty());
        r
    }

    /// The position of the entry with this key.
    fn position(&self, key: &str) -> (r: Option<usize>)
        requires
            self.wf(),
        ensures
            match r {
                Some(i) => i < self.entries@.len() && self.entries@[i as int].key@ == key@
                    && self@.dom().contains(key@) && self@[key@] == self.entries@[i as int].value,
                None => !self@.dom().contains(key@) && forall|i: int|
                    0 <= i < self.entries@.len() ==> (#[trigger] self.entries@[i]).key@ != key@,
            },
    {
        for i in 0..self.entries.len()
            invariant
                self.wf(),
                forall|k: int| 0 <= k < i ==> (#[trigger] self.entries@[k]).key@ != key@,
        {
            if same_text(self.entries[i].key.as_str(), key) {
                proof {
                    self.lemma_entry(i as int);
                }
                return Some(i);
            }
        }
        None
    }

    /// The value of this key.
    pub fn get(&self, key: &str) -> (r: Option<&V>)
        requires
            self.wf(),
        ensures
            match r {
                Some(v) => self@.dom().contains(key@) && *v == self@[key@],
                None => !self@.dom().contains(key@),
            },
    {
        match self.position(key) {
            Some(i) => Some(&self.entries[i].value),
            None => None,
        }
    }

    /// Removes this key and returns its value.
    pub fn remove(&mut self, key: &str) -> (r: Option<V>)
        requires
            old(self).wf(),
        ensures
            final(self).wf(),
            final(self)@ == old(self)@.remove(key@),
            match r {
                Some(v) => old(self)@.dom().contains(key@) && v == old(self)@[key@],
                None => !old(self)@.dom().contains(key@),
            },
    {
        let ghost before = *self;
        match self.position(key) {
            Some(i) => {
                let entry = self.entries.remove(i);
                proof {
                    let was = before.entries@;
                    let now = self.entries@;
                    assert(forall|k: int|
                        0 <= k < now.len() ==> #[trigger] now[k] == was[if k < i {
                            k
                        } else {
                            k + 1
                        }]);
                    assert forall|k: int, j: int| 0 <= k < j < now.len() implies (
                    #[trigger] now[k]).key@ != (#[trigger] now[j]).key@ by {
                        let a = if k < i {
                            k
                        } else {
                            k + 1
                        };
                        let b = if j < i {
                            j
                        } else {
                            j + 1
                        };
                        assert(was[a].key@ != was[b].key@);
                    }
                    assert(self.wf());
                    assert forall|x: Seq<char>| self@.dom().contains(x) implies before@.remove(
                        key@,
                    ).dom().contains(x) && self@[x] == before@[x] by {
                        let k = choose|k: int| 0 <= k < now.len() && (#[trigger] now[k]).key@ == x;
                        let a = if k < i {
                            k
                        } else {
                            k + 1
                        };
                        assert(now[k] == was[a]);
                        self.lemma_entry(k);
                        before.lemma_entry(a);
                        assert(was[i as int].key@ == key@);
                    }
                    assert forall|x: Seq<char>| before@.remove(key@).dom().contains(
                        x,
                    ) implies self@.dom().contains(x) by {
                        let a = choose|a: int| 0 <= a < was.len() && (#[trigger] was[a]).key@ == x;
                        assert(a != i);
                        let k = if a < i {
                            a
                        } else {
                            a - 1
                        };
                        assert(now[k] == was[a]);
                        self.lemma_entry(k);
                    }
                    assert(self@ =~= before@.remove(key@));
                }
                Some(entry.value)
            },
            None => {
                assert(self@ =~= self@.remove(key@));
                None
            },
        }
    }

    /// Gives this key this value.
    pub fn insert(&mut self, key: String, value: V)
        requires
            old(self).wf(),
        ensures
            final(self).wf(),
            final(self)@ == old(self)@.insert(key@, value),
    {
        let ghost first = self@;
        let ghost name = key@;
        let _ = self.remove(key.as_str());
        let ghost before = *self;
        self.entries.push(Entry { key, value });
        proof {
            let was = before.entries@;
            let now = self.entries@;
            let n = was.len() as int;
            assert(now == was.push(now[n]));
            assert forall|k: int| 0 <= k < n implies (#[trigger] was[k]).key@ != name by {
                before.lemma_entry(k);
            }
            assert forall|k: int, j: int| 0 <= k < j < now.len() implies (
            #[trigger] now[k]).key@ != (#[trigger] now[j]).key@ by {
                assert(now[k] == was[k]);
                if j < n {
                    assert(now[j] == was[j]);
                }
            }
            assert(self.wf());
            self.lemma_entry(n);
            assert forall|x: Seq<char>| self@.dom().contains(x) implies before@.insert(
                name,
                value,
            ).dom().contains(x) && self@[x] == before@.insert(name, value)[x] by {
                let k = choose|k: int| 0 <= k < now.len() && (#[trigger] now[k]).key@ == x;
                self.lemma_entry(k);
                if k < n {
                    assert(now[k] == was[k]);
                    before.lemma_entry(k);
                }
            }
            assert forall|x: Seq<char>| before@.dom().contains(x) implies self@.dom().contains(
                x,
            ) by {
                let k = choose|k: int| 0 <= k < was.len() && (#[trigger] was[k]).key@ == x;
                assert(now[k] == was[k]);
                self.lemma_entry(k);
            }
            assert(self@ =~= before@.insert(name, value));
            assert(before@.insert(name, value) =~= first.insert(name, value));
        }
    }

    /// Removes all keys.
    pub fn clear(&mut self)
        ensures
            final(self).wf(),
            final(self)@ == Map::<Seq<char>, V>::empty(),
    {
        self.entries = Vec::new();
        assert(self@ =~= Map::<Seq<char>, V>::empty());
    }

    /// The keys, each once, in no particular order.
    pub fn keys(&self) -> (r: Vec<String>)
        requires
            self.wf(),
        ensures
            texts(r@).no_duplicates(),
            texts(r@).to_set() == self@.dom(),
    {
        let mut out: Vec<String> = Vec::new();
        let n = self.entries.len();
        for i in 0..n
            invariant
                n == self.entries@.len(),
                out@.len() == i,
                forall|k: int| 0 <= k < i ==> (#[trigger] out@[k])@ == self.entries@[k].key@,
        {
            out.push(self.entries[i].key.clone());
        }
        proof {
            let t = texts(out@);
            assert forall|i: int, j: int| 0 <= i < t.len() && 0 <= j < t.len() && i
                != j implies t[i] != t[j] by {
                assert(t[i] == out@[i]@ && t[j] == out@[j]@);
                if i < j {
                    assert(self.entries@[i].key@ != self.entries@[j].key@);
                } else {
                    assert(self.entries@[j].key@ != self.entries@[i].key@);
                }
            }
            assert forall|x: Seq<char>| t.to_set().contains(x) <==> self@.dom().contains(x) by {
                if t.to_set().contains(x) {
                    let k = choose|k: int| 0 <= k < t.len() && t[k] == x;
                    assert(t[k] == out@[k]@);
                    self.lemma_entry(k);
                }
                if self@.dom().contains(x) {
                    let k = choose|k: int|
                        0 <= k < self.entries@.len() && (#[trigger] self.entries@[k]).key@ == x;
                    assert(t[k] == out@[k]@);
                    assert(t.contains(x));
                }
            }
            assert(t.to_set() =~= self@.dom());
        }
        out
    }
}

} // verus!
