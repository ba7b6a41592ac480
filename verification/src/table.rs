//! A table from texts to values that keeps the order of insertion.

use crate::text::{less_text, same_text, text_less, text_order};
use vstd::prelude::*;

verus! {

/// Values under distinct keys, in the order in which the keys came in.
pub struct Table<V> {
    pub entries: Vec<(String, V)>,
}

impl<V> View for Table<V> {
    type V = Map<Seq<char>, V>;

    open spec fn view(&self) -> Map<Seq<char>, V> {
        Map::new(|k: Seq<char>| self.keys().contains(k), |k: Seq<char>| self.entries@[self.slot(k)].1)
    }
}

impl<V> Table<V> {
    /// The keys in their order.
    pub open spec fn keys(self) -> Seq<Seq<char>> {
        self.entries@.map_values(|e: (String, V)| e.0@)
    }

    /// Where the key `k` stands.
    pub open spec fn slot(self, k: Seq<char>) -> int {
        self.keys().index_of(k)
    }

    /// No key stands twice.
    pub open spec fn wf(self) -> bool {
        forall|i: int, j: int|
            0 <= i < j < self.entries@.len() ==> #[trigger] self.entries@[i].0@ != #[trigger] self.entries@[j].0@
    }

    /// The entry at each position is what the table holds under its key.
    pub proof fn entry_is_value(self, i: int)
        requires
            self.wf(),
            0 <= i < self.entries@.len(),
        ensures
            self@.contains_key(self.entries@[i].0@),
            self@[self.entries@[i].0@] == self.entries@[i].1,
            self.slot(self.entries@[i].0@) == i,
    {
        let k = self.entries@[i].0@;
        assert(self.keys()[i] == k);
        assert(self.keys().contains(k));
        let j = self.slot(k);
        assert(self.keys()[j] == k);
        assert(self.entries@[j].0@ == k);
    }

    /// A key that is held stands at its slot.
    pub proof fn slot_of_key(self, k: Seq<char>)
        requires
            self@.contains_key(k),
        ensures
            0 <= self.slot(k) < self.entries@.len(),
            self.entries@[self.slot(k)].0@ == k,
            self@[k] == self.entries@[self.slot(k)].1,
    {
        assert(self.keys().contains(k));
        let j = self.slot(k);
        assert(self.keys()[j] == k);
    }

    /// An empty table.
    pub fn new() -> (r: Table<V>)
        ensures
            r.wf(),
            r.entries@ == Seq::<(String, V)>::empty(),
            r@ == Map::<Seq<char>, V>::empty(),
    {
        let r = Table { entries: Vec::new() };
        assert(r@ =~= Map::<Seq<char>, V>::empty());
        r
    }

    /// The number of keys.
    pub fn len(&self) -> (r: usize)
        ensures
            r == self.entries@.len(),
    {
        self.entries.len()
    }

    /// The position of the key `k`.
    pub fn find(&self, k: &str) -> (r: Option<usize>)
        requires
            self.wf(),
        ensures
            match r {
                Some(i) => i < self.entries@.len() && self.entries@[i as int].0@ == k@ && i == self.slot(k@)
                    && self@.contains_key(k@) && self@[k@] == self.entries@[i as int].1,
                None => !self@.contains_key(k@),
            },
    {
        for i in 0..self.entries.len()
            invariant
                self.wf(),
                forall|j: int| 0 <= j < i ==> #[trigger] self.entries@[j].0@ != k@,
        {
            if same_text(self.entries[i].0.as_str(), k) {
                proof {
                    self.entry_is_value(i as int);
                }
                return Some(i);
            }
        }
        assert forall|j: int| 0 <= j < self.keys().len() implies #[trigger] self.keys()[j] != k@ by {
            assert(self.keys()[j] == self.entries@[j].0@);
        }
        None
    }

    /// Whether the key `k` is held.
    pub fn contains(&self, k: &str) -> (r: bool)
        requires
            self.wf(),
        ensures
            r == self@.contains_key(k@),
    {
        self.find(k).is_some()
    }

    /// The value under the key `k`.
    pub fn get(&self, k: &str) -> (r: Option<&V>)
        requires
            self.wf(),
        ensures
            match r {
                Some(v) => self@.contains_key(k@) && self@[k@] == *v,
                None => !self@.contains_key(k@),
            },
    {
        match self.find(k) {
            Some(i) => Some(&self.entries[i].1),
            None => None,
        }
    }

    /// Puts `v` under the key `k`: in place of what stood there, else at the end.
    pub fn insert(&mut self, k: String, v: V)
        requires
            old(self).wf(),
        ensures
            final(self).wf(),
            final(self)@ == old(self)@.insert(k@, v),
            old(self)@.contains_key(k@) ==> final(self).keys() == old(self).keys(),
            !old(self)@.contains_key(k@) ==> final(self).entries@ == old(self).entries@.push((k, v)),
            !old(self)@.contains_key(k@) ==> final(self).keys() == old(self).keys().push(k@),
    {
        let ghost before = *self;
        match self.find(k.as_str()) {
            Some(i) => {
                let ghost e = self.entries@[i as int];
                self.set_value(i, v);
            },
            None => {
                self.entries.push((k, v));
                assert(self.keys() =~= before.keys().push(k@));
                assert forall|i: int, j: int| 0 <= i < j < self.entries@.len() implies #[trigger] self.entries@[i].0@
                    != #[trigger] self.entries@[j].0@ by {
                    if j == before.entries@.len() {
                        assert(before.keys()[i] == before.entries@[i].0@);
                        assert(before.keys().contains(before.entries@[i].0@));
                    }
                }
                assert forall|q: Seq<char>| #[trigger] self@.contains_key(q) <==> before@.insert(k@, v).contains_key(q) by {
                    if before.keys().contains(q) {
                        let w = before.keys().index_of(q);
                        assert(self.keys()[w] == q);
                    }
                    if q == k@ {
                        assert(self.keys()[before.keys().len() as int] == q);
                    }
                    if self.keys().contains(q) && q != k@ {
                        let w = self.keys().index_of(q);
                        assert(before.keys()[w] == q);
                    }
                }
                assert forall|q: Seq<char>| #[trigger] self@.contains_key(q) implies self@[q] == before@.insert(k@, v)[q] by {
                    self.slot_of_key(q);
                    if q != k@ {
                        before.entry_is_value(self.slot(q));
                    } else {
                        self.entry_is_value(before.entries@.len() as int);
                    }
                }
                assert(self@ =~= before@.insert(k@, v));
            },
        }
    }

    /// The keys stand in the order of code points.
    pub open spec fn sorted(self) -> bool {
        forall|i: int, j: int|
            0 <= i < j < self.entries@.len() ==> text_less(#[trigger] self.entries@[i].0@, #[trigger] self.entries@[j].0@)
    }

    /// Whether the entries stand in the order of their keys.
    pub fn is_sorted(&self) -> (r: bool)
        ensures
            r == self.sorted(),
            r ==> self.wf(),
    {
        let ghost e = self.entries@;
        if self.entries.len() == 0 {
            return true;
        }
        for i in 1..self.entries.len()
            invariant
                e == self.entries@,
                1 <= e.len(),
                forall|j: int, k: int| 0 <= j < k < i ==> text_less(#[trigger] e[j].0@, #[trigger] e[k].0@),
        {
            if !less_text(self.entries[i - 1].0.as_str(), self.entries[i].0.as_str()) {
                assert(!text_less(e[i - 1].0@, e[i as int].0@));
                return false;
            }
            assert forall|j: int, k: int| 0 <= j < k < i + 1 implies text_less(#[trigger] e[j].0@, #[trigger] e[k].0@) by {
                if k == i && j < i - 1 {
                    text_order(e[j].0@, e[i - 1].0@, e[k].0@);
                }
            }
        }
        proof {
            assert forall|j: int, k: int| 0 <= j < k < e.len() implies #[trigger] e[j].0@ != #[trigger] e[k].0@ by {
                text_order(e[j].0@, e[k].0@, e[k].0@);
            }
        }
        true
    }

    /// Puts `v` under the key `k`, where the order of the keys wants it.
    pub fn insert_sorted(&mut self, k: String, v: V)
        requires
            old(self).wf(),
            old(self).sorted(),
        ensures
            final(self).wf(),
            final(self).sorted(),
            final(self)@ == old(self)@.insert(k@, v),
    {
        let ghost before = *self;
        match self.find(k.as_str()) {
            Some(i) => {
                self.set_value(i, v);
                assert(self.sorted()) by {
                    assert forall|a: int, b: int| 0 <= a < b < self.entries@.len() implies text_less(
                        #[trigger] self.entries@[a].0@,
                        #[trigger] self.entries@[b].0@,
                    ) by {
                        assert(text_less(before.entries@[a].0@, before.entries@[b].0@));
                    }
                }
            },
            None => {
                let mut i: usize = 0;
                while i < self.entries.len() && less_text(self.entries[i].0.as_str(), k.as_str())
                    invariant
                        *self == before,
                        i <= self.entries@.len(),
                        forall|a: int| 0 <= a < i ==> text_less(#[trigger] self.entries@[a].0@, k@),
                    decreases self.entries@.len() - i,
                {
                    i += 1;
                }
                proof {
                    assert forall|a: int| 0 <= a < before.entries@.len() implies #[trigger] before.entries@[a].0@ != k@ by {
                        before.entry_is_value(a);
                    }
                    assert forall|a: int| i <= a < before.entries@.len() implies text_less(k@, #[trigger] before.entries@[a].0@) by {
                        text_order(k@, before.entries@[i as int].0@, before.entries@[a].0@);
                        if a > i {
                            assert(text_less(before.entries@[i as int].0@, before.entries@[a].0@));
                        }
                    }
                }
                self.entries.insert(i, (k, v));
                proof {
                    let after = self.entries@;
                    assert forall|a: int, b: int| 0 <= a < b < after.len() implies text_less(
                        #[trigger] after[a].0@,
                        #[trigger] after[b].0@,
                    ) by {
                        let a2 = if a < i { a } else { a - 1 };
                        let b2 = if b < i { b } else { b - 1 };
                        if a == i {
                            assert(text_less(k@, before.entries@[b2].0@));
                        } else if b == i {
                            assert(text_less(before.entries@[a2].0@, k@));
                        } else {
                            assert(text_less(before.entries@[a2].0@, before.entries@[b2].0@));
                        }
                    }
                    assert(self.wf()) by {
                        assert forall|a: int, b: int| 0 <= a < b < after.len() implies #[trigger] after[a].0@ != #[trigger] after[b].0@ by {
                            text_order(after[a].0@, after[b].0@, k@);
                        }
                    }
                    assert forall|q: Seq<char>| #[trigger] self@.contains_key(q) <==> before@.insert(k@, v).contains_key(q) by {
                        if self@.contains_key(q) {
                            self.slot_of_key(q);
                            let a = self.slot(q);
                            if a != i {
                                let a2 = if a < i { a } else { a - 1 };
                                before.entry_is_value(a2);
                            }
                        }
                        if before@.contains_key(q) {
                            before.slot_of_key(q);
                            let a2 = before.slot(q);
                            let a = if a2 < i { a2 } else { a2 + 1 };
                            self.entry_is_value(a);
                        }
                        self.entry_is_value(i as int);
                    }
                    assert forall|q: Seq<char>| #[trigger] self@.contains_key(q) implies self@[q] == before@.insert(k@, v)[q] by {
                        self.slot_of_key(q);
                        let a = self.slot(q);
                        if a != i {
                            let a2 = if a < i { a } else { a - 1 };
                            before.entry_is_value(a2);
                        } else {
                            self.entry_is_value(i as int);
                        }
                    }
                    assert(self@ =~= before@.insert(k@, v));
                }
            },
        }
    }

    /// Replaces the value at position `i`.
    pub fn set_value(&mut self, i: usize, v: V)
        requires
            old(self).wf(),
            i < old(self).entries@.len(),
        ensures
            final(self).wf(),
            final(self).keys() == old(self).keys(),
            final(self).entries@ == old(self).entries@.update(i as int, (old(self).entries@[i as int].0, v)),
            final(self)@ == old(self)@.insert(old(self).entries@[i as int].0@, v),
    {
        let ghost before = *self;
        let e = &mut self.entries[i];
        e.1 = v;
        assert(self.keys() =~= before.keys());
        assert(self.wf()) by {
            assert forall|a: int, b: int| 0 <= a < b < self.entries@.len() implies #[trigger] self.entries@[a].0@
                != #[trigger] self.entries@[b].0@ by {
                assert(before.entries@[a].0@ != before.entries@[b].0@);
            }
        }
        proof {
            let k = before.entries@[i as int].0@;
            before.entry_is_value(i as int);
            assert forall|q: Seq<char>| #[trigger] self@.contains_key(q) implies self@[q] == before@.insert(k, v)[q] by {
                self.slot_of_key(q);
                before.slot_of_key(q);
            }
            assert(self@ =~= before@.insert(k, v));
        }
    }

    /// Takes the key `k` out.
    pub fn remove(&mut self, k: &str) -> (r: Option<V>)
        requires
            old(self).wf(),
        ensures
            final(self).wf(),
            final(self)@ == old(self)@.remove(k@),
            old(self).sorted() ==> final(self).sorted(),
            match r {
                Some(v) => old(self)@.contains_key(k@) && v == old(self)@[k@] && final(self).entries@
                    == old(self).entries@.remove(old(self).slot(k@)),
                None => !old(self)@.contains_key(k@) && *final(self) == *old(self),
            },
    {
        let ghost before = *self;
        match self.find(k) {
            Some(i) => {
                let e = self.entries.remove(i);
                proof {
                    if before.sorted() {
                        assert forall|a: int, b: int| 0 <= a < b < self.entries@.len() implies text_less(
                            #[trigger] self.entries@[a].0@,
                            #[trigger] self.entries@[b].0@,
                        ) by {
                            let a2 = if a < i { a } else { a + 1 };
                            let b2 = if b < i { b } else { b + 1 };
                            assert(text_less(before.entries@[a2].0@, before.entries@[b2].0@));
                        }
                    }
                    assert(self.wf()) by {
                        assert forall|a: int, b: int| 0 <= a < b < self.entries@.len() implies #[trigger] self.entries@[a].0@
                            != #[trigger] self.entries@[b].0@ by {
                            let a2 = if a < i { a } else { a + 1 };
                            let b2 = if b < i { b } else { b + 1 };
                            assert(before.entries@[a2].0@ != before.entries@[b2].0@);
                        }
                    }
                    before.entry_is_value(i as int);
                    assert forall|q: Seq<char>| #[trigger] self@.contains_key(q) <==> before@.remove(k@).contains_key(q) by {
                        if self@.contains_key(q) {
                            self.slot_of_key(q);
                            let a = self.slot(q);
                            let a2 = if a < i { a } else { a + 1 };
                            before.entry_is_value(a2);
                            assert(before.entries@[a2].0@ == q);
                            if q == k@ {
                                assert(before.entries@[i as int].0@ == q);
                            }
                        }
                        if before@.contains_key(q) && q != k@ {
                            before.slot_of_key(q);
                            let a2 = before.slot(q);
                            let a = if a2 < i { a2 } else { a2 - 1 };
                            self.entry_is_value(a);
                        }
                    }
                    assert forall|q: Seq<char>| #[trigger] self@.contains_key(q) implies self@[q] == before@.remove(k@)[q] by {
                        self.slot_of_key(q);
                        let a = self.slot(q);
                        let a2 = if a < i { a } else { a + 1 };
                        before.entry_is_value(a2);
                    }
                    assert(self@ =~= before@.remove(k@));
                }
                Some(e.1)
            },
            None => {
                assert(self@ =~= before@.remove(k@));
                None
            },
        }
    }
}

} // verus!
