//! A small map from text keys to values, kept in insertion order.
//!
//! The stores of the engine are all of this shape: each key is bound to
//! at most one value, and listing goes by the order of first insertion.

use vstd::prelude::*;
use crate::text::{same_text, texts};

verus! {

pub struct KeyedList<T> {
    pub keys: Vec<String>,
    pub values: Vec<T>,
}

impl<T> KeyedList<T> {
    /// As many values as keys, and no key twice.
    pub open spec fn wf(self) -> bool {
        &&& self.keys@.len() == self.values@.len()
        &&& forall|i: int, j: int|
            0 <= i < j < self.keys@.len() ==> (#[trigger] self.keys@[i])@ != (
            #[trigger] self.keys@[j])@
    }

    /// Whether `key` is bound.
    pub open spec fn has(self, key: Seq<char>) -> bool {
        exists|i: int| 0 <= i < self.keys@.len() && (#[trigger] self.keys@[i])@ == key
    }

    /// Where `key` is bound.
    pub open spec fn position(self, key: Seq<char>) -> int {
        choose|i: int| 0 <= i < self.keys@.len() && (#[trigger] self.keys@[i])@ == key
    }

    /// The bindings as a map.
    pub open spec fn view(self) -> Map<Seq<char>, T> {
        Map::new(|key: Seq<char>| self.has(key), |key: Seq<char>| self.values@[self.position(key)])
    }

    /// The key at `i` is bound to the value at `i`.
    pub proof fn lemma_entry(self, i: int)
        requires
            self.wf(),
            0 <= i < self.keys@.len(),
        ensures
            self.has(self.keys@[i]@),
            self.position(self.keys@[i]@) == i,
            self.view().dom().contains(self.keys@[i]@),
            self.view()[self.keys@[i]@] == self.values@[i],
    {
        let key = self.keys@[i]@;
        let p = self.position(key);
        assert(self.keys@[p]@ == key);
        if p < i {
            assert(self.keys@[p]@ != self.keys@[i]@);
        } else if i < p {
            assert(self.keys@[i]@ != self.keys@[p]@);
        }
    }

    /// A list that binds nothing.
    pub fn new() -> (list: Self)
        ensures
            list.wf(),
            list.view() == Map::<Seq<char>, T>::empty(),
            list.keys@.len() == 0,
    {
        let list = KeyedList { keys: Vec::new(), values: Vec::new() };
        assert(list.view() =~= Map::<Seq<char>, T>::empty());
        list
    }

    /// How many keys are bound.
    pub fn len(&self) -> (n: usize)
        ensures
            n == self.keys@.len(),
    {
        self.keys.len()
    }

    /// The position of `key`, where it is bound.
    pub fn find(&self, key: &str) -> (r: Option<usize>)
        requires
            self.wf(),
        ensures
            match r {
                Some(i) => i < self.keys@.len() && self.keys@[i as int]@ == key@ && self.has(key@)
                    && self.position(key@) == i,
                None => !self.has(key@),
            },
    {
        let mut i: usize = 0;
        while i < self.keys.len()
            invariant
                self.wf(),
                i <= self.keys@.len(),
                forall|j: int| 0 <= j < i ==> (#[trigger] self.keys@[j])@ != key@,
            decreases self.keys@.len() - i,
        {
            if same_text(self.keys[i].as_str(), key) {
                proof {
                    self.lemma_entry(i as int);
                }
                return Some(i);
            }
            i = i + 1;
        }
        None
    }

    /// Whether `key` is bound.
    pub fn contains(&self, key: &str) -> (r: bool)
        requires
            self.wf(),
        ensures
            r == self.view().dom().contains(key@),
    {
        self.find(key).is_some()
    }

    /// The value bound to `key`.
    pub fn get(&self, key: &str) -> (r: Option<&T>)
        requires
            self.wf(),
        ensures
            match r {
                Some(value) => self.view().dom().contains(key@) && *value == self.view()[key@],
                None => !self.view().dom().contains(key@),
            },
    {
        match self.find(key) {
            Some(i) => Some(&self.values[i]),
            None => None,
        }
    }

    /// Binds `key` to `value`.  A key that was bound keeps its place and
    /// gets the new value; a new key goes to the end.  Says whether the
    /// key was bound before.
    pub fn put(&mut self, key: String, value: T) -> (replaced: bool)
        requires
            old(self).wf(),
        ensures
            final(self).wf(),
            final(self).view() == old(self).view().insert(key@, value),
            replaced == old(self).view().dom().contains(key@),
            replaced ==> texts(final(self).keys@) == texts(old(self).keys@),
            !replaced ==> texts(final(self).keys@) == texts(old(self).keys@).push(key@),
    {
        let ghost before = *self;
        match self.find(key.as_str()) {
            Some(i) => {
                self.values.set(i, value);
                proof {
                    let after = *self;
                    assert(after.keys@ == before.keys@);
                    assert forall|k: Seq<char>| after.has(k) == before.has(k) by {}
                    assert forall|k: Seq<char>| #[trigger] after.has(k) implies after.view()[k]
                        == before.view().insert(key@, value)[k] by {
                        let p = after.position(k);
                        assert(p == before.position(k));
                        if k == key@ {
                            before.lemma_entry(i as int);
                        } else {
                            assert(p != i);
                        }
                    }
                    assert(after.view() =~= before.view().insert(key@, value));
                }
                true
            },
            None => {
                let ghost text = key@;
                self.keys.push(key);
                self.values.push(value);
                proof {
                    let after = *self;
                    let n = before.keys@.len() as int;
                    assert(after.keys@[n]@ == text);
                    assert forall|a: int, b: int| 0 <= a < b < after.keys@.len() implies (
                    #[trigger] after.keys@[a])@ != (#[trigger] after.keys@[b])@ by {
                        if b == n {
                            assert(after.keys@[a] == before.keys@[a]);
                        } else {
                            assert(after.keys@[a] == before.keys@[a]);
                            assert(after.keys@[b] == before.keys@[b]);
                        }
                    }
                    after.lemma_entry(n);
                    assert forall|k: Seq<char>| after.has(k) == (k == text || before.has(k)) by {
                        if before.has(k) {
                            let p = before.position(k);
                            assert(after.keys@[p] == before.keys@[p]);
                        }
                        if after.has(k) && k != text {
                            let p = after.position(k);
                            assert(after.keys@[p] == before.keys@[p]);
                        }
                    }
                    assert forall|k: Seq<char>| #[trigger] after.has(k) implies after.view()[k]
                        == before.view().insert(text, value)[k] by {
                        if k != text {
                            let p = before.position(k);
                            assert(after.keys@[p] == before.keys@[p]);
                            after.lemma_entry(p);
                            before.lemma_entry(p);
                        }
                    }
                    assert(after.view() =~= before.view().insert(text, value));
                    assert(texts(after.keys@) =~= texts(before.keys@).push(text));
                }
                false
            },
        }
    }

    /// Unbinds `key` and returns the value it was bound to.  The other
    /// keys keep their order.
    pub fn take(&mut self, key: &str) -> (r: Option<T>)
        requires
            old(self).wf(),
        ensures
            final(self).wf(),
            final(self).view() == old(self).view().remove(key@),
            match r {
                Some(value) => old(self).view().dom().contains(key@)
                    && value == old(self).view()[key@],
                None => !old(self).view().dom().contains(key@),
            },
    {
        let ghost before = *self;
        match self.find(key) {
            Some(i) => {
                self.keys.remove(i);
                let value = self.values.remove(i);
                proof {
                    let after = *self;
                    before.lemma_entry(i as int);
                    assert forall|a: int| 0 <= a < after.keys@.len() implies (
                    #[trigger] after.keys@[a]) == before.keys@[if a < i {
                        a
                    } else {
                        a + 1
                    }] && after.values@[a] == before.values@[if a < i {
                        a
                    } else {
                        a + 1
                    }] by {}
                    assert forall|a: int, b: int| 0 <= a < b < after.keys@.len() implies (
                    #[trigger] after.keys@[a])@ != (#[trigger] after.keys@[b])@ by {
                        let a0 = if a < i {
                            a
                        } else {
                            a + 1
                        };
                        let b0 = if b < i {
                            b
                        } else {
                            b + 1
                        };
                        assert(before.keys@[a0]@ != before.keys@[b0]@);
                    }
                    assert forall|k: Seq<char>| after.has(k) == (k != key@ && before.has(k)) by {
                        if after.has(k) {
                            let p = after.position(k);
                            let p0 = if p < i {
                                p
                            } else {
                                p + 1
                            };
                            assert(before.keys@[p0]@ == k);
                            assert(before.keys@[p0]@ != before.keys@[i as int]@);
                        }
                        if k != key@ && before.has(k) {
                            let p = before.position(k);
                            let q = if p < i {
                                p
                            } else {
                                p - 1
                            };
                            assert(after.keys@[q]@ == k);
                        }
                    }
                    assert forall|k: Seq<char>| #[trigger] after.has(k) implies after.view()[k]
                        == before.view()[k] by {
                        let p = after.position(k);
                        let p0 = if p < i {
                            p
                        } else {
                            p + 1
                        };
                        after.lemma_entry(p);
                        before.lemma_entry(p0);
                    }
                    assert(after.view() =~= before.view().remove(key@));
                }
                Some(value)
            },
            None => {
                assert(self.view() =~= before.view().remove(key@));
                None
            },
        }
    }
}

} // verus!
