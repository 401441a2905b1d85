//! A small map from string ids to values, kept as a vector of distinct ids.

use vstd::prelude::*;

verus! {

/// A mapping from ids to values in which no id occurs twice.
#[derive(Debug)]
pub struct IdMap<T> {
    slots: Vec<(String, T)>,
}

impl<T> View for IdMap<T> {
    type V = Map<Seq<char>, T>;

    open spec fn view(&self) -> Map<Seq<char>, T> {
        Map::new(
            |id: Seq<char>| exists|i: int| self.has_at(i, id),
            |id: Seq<char>| self.entries()[choose|i: int| self.has_at(i, id)].1,
        )
    }
}

impl<T> IdMap<T> {
    /// No id occurs twice. Every value of the type satisfies this.
    #[verifier::type_invariant]
    pub closed spec fn wf(self) -> bool {
        forall|i: int, j: int|
            0 <= i < j < self.slots@.len() ==> self.slots@[i].0@ != self.slots@[j].0@
    }

    /// The entries in the order in which they are stored.
    pub closed spec fn entries(self) -> Seq<(Seq<char>, T)> {
        self.slots@.map_values(|e: (String, T)| (e.0@, e.1))
    }

    /// Entry `i` exists and carries the id `id`.
    pub open spec fn has_at(self, i: int, id: Seq<char>) -> bool {
        0 <= i < self.entries().len() && self.entries()[i].0 == id
    }

    /// The place at which `id` is stored, where it is stored at all.
    pub open spec fn position(self, id: Seq<char>) -> int {
        choose|i: int| self.has_at(i, id)
    }

    /// The ids of the first `n` entries.
    pub open spec fn ids_before(self, n: int) -> Set<Seq<char>> {
        Set::new(|id: Seq<char>| exists|i: int| i < n && self.has_at(i, id))
    }

    /// The ids of the first `n + 1` entries are those of the first `n` and
    /// the id of entry `n`, which is not among them.
    pub proof fn lemma_ids_before_next(self, n: int)
        requires
            self.wf(),
            0 <= n < self.entries().len(),
        ensures
            self.ids_before(n + 1) == self.ids_before(n).insert(self.entries()[n].0),
            !self.ids_before(n).contains(self.entries()[n].0),
    {
        self.lemma_entry(n);
        let id = self.entries()[n].0;
        assert(self.has_at(n, id));
        assert(self.ids_before(n + 1) =~= self.ids_before(n).insert(id));
    }

    /// The ids of all the entries are the ids of the view.
    pub proof fn lemma_ids_all(self)
        ensures
            self.ids_before(self.entries().len() as int) == self@.dom(),
            self.ids_before(0) == Set::<Seq<char>>::empty(),
    {
        assert(self@.dom() =~= self.ids_before(self.entries().len() as int));
        assert(self.ids_before(0) =~= Set::<Seq<char>>::empty());
    }

    /// The first `n` entries carry `n` different ids.
    pub proof fn lemma_ids_before(self, n: int)
        requires
            self.wf(),
            0 <= n <= self.entries().len(),
        ensures
            self.ids_before(n).finite(),
            self.ids_before(n).len() == n,
        decreases n,
    {
        if n == 0 {
            self.lemma_ids_all();
        } else {
            self.lemma_ids_before(n - 1);
            self.lemma_ids_before_next(n - 1);
        }
    }

    /// The view holds as many ids as there are entries.
    pub proof fn lemma_len(self)
        requires
            self.wf(),
        ensures
            self@.dom().finite(),
            self@.dom().len() == self.entries().len(),
    {
        self.lemma_ids_before(self.entries().len() as int);
        self.lemma_ids_all();
    }

    /// Every stored entry is the one the view gives for its id, and no other
    /// entry has that id.
    pub proof fn lemma_entry(self, i: int)
        requires
            self.wf(),
            0 <= i < self.entries().len(),
        ensures
            self@.contains_key(self.entries()[i].0),
            self@[self.entries()[i].0] == self.entries()[i].1,
            self.position(self.entries()[i].0) == i,
            forall|j: int| self.has_at(j, self.entries()[i].0) ==> j == i,
    {
        let id = self.entries()[i].0;
        assert(self.has_at(i, id));
        assert forall|j: int| self.has_at(j, id) implies j == i by {
            if j < i {
                assert(self.slots@[j].0@ != self.slots@[i].0@);
            } else if i < j {
                assert(self.slots@[i].0@ != self.slots@[j].0@);
            }
        }
        assert(self.has_at(self.position(id), id));
    }

    /// An id of the view is the id of some stored entry.
    pub proof fn lemma_position(self, id: Seq<char>) -> (i: int)
        requires
            self@.contains_key(id),
        ensures
            i == self.position(id),
            self.has_at(i, id),
            self@[id] == self.entries()[i].1,
    {
        self.position(id)
    }

    /// Hands out the fact that this value is well formed.
    pub fn confirm(&self)
        ensures
            self.wf(),
    {
        proof {
            use_type_invariant(self);
        }
    }

    /// The empty mapping.
    pub fn new() -> (r: Self)
        ensures
            r@ == Map::<Seq<char>, T>::empty(),
            r.entries().len() == 0,
            r.wf(),
    {
        let r = IdMap { slots: Vec::new() };
        assert(r@ =~= Map::<Seq<char>, T>::empty());
        r
    }

    /// The number of entries.
    pub fn len(&self) -> (n: usize)
        ensures
            n == self.entries().len(),
            n == self@.len(),
    {
        proof {
            use_type_invariant(self);
            self.lemma_len();
        }
        self.slots.len()
    }

    /// Whether the mapping holds no entry.
    pub fn is_empty(&self) -> (r: bool)
        ensures
            r == (self.entries().len() == 0),
            r == (self@ =~= Map::<Seq<char>, T>::empty()),
    {
        proof {
            use_type_invariant(self);
            if self.slots.len() > 0 {
                self.lemma_entry(0);
            }
        }
        self.slots.len() == 0
    }

    /// The place of `id` among the entries, if it has one.
    pub fn index_of(&self, id: &String) -> (r: Option<usize>)
        ensures
            match r {
                Some(i) => self@.contains_key(id@) && i == self.position(id@) && self.has_at(
                    i as int,
                    id@,
                ),
                None => !self@.contains_key(id@),
            },
    {
        let mut i: usize = 0;
        while i < self.slots.len()
            invariant
                i <= self.slots@.len(),
                forall|j: int| 0 <= j < i ==> self.entries()[j].0 != id@,
            decreases self.slots@.len() - i,
        {
            if self.slots[i].0 == *id {
                proof {
                    use_type_invariant(self);
                    self.lemma_entry(i as int);
                }
                return Some(i);
            }
            i += 1;
        }
        None
    }

    /// The id of entry `i`.
    pub fn id_at(&self, i: usize) -> (r: &String)
        requires
            i < self.entries().len(),
        ensures
            r@ == self.entries()[i as int].0,
    {
        &self.slots[i].0
    }

    /// The value of entry `i`.
    pub fn value_at(&self, i: usize) -> (r: &T)
        requires
            i < self.entries().len(),
        ensures
            *r == self.entries()[i as int].1,
            self@.contains_key(self.entries()[i as int].0),
            self@[self.entries()[i as int].0] == *r,
    {
        proof {
            use_type_invariant(self);
            self.lemma_entry(i as int);
        }
        &self.slots[i].1
    }

    /// The value stored under `id`, if there is one.
    pub fn get(&self, id: &String) -> (r: Option<&T>)
        ensures
            r == (if self@.contains_key(id@) {
                Some(&self@[id@])
            } else {
                None
            }),
    {
        match self.index_of(id) {
            Some(i) => {
                proof {
                    use_type_invariant(self);
                    self.lemma_entry(i as int);
                }
                Some(&self.slots[i].1)
            },
            None => None,
        }
    }

    /// Stores `value` under `id`, replacing what was stored there.
    pub fn insert(&mut self, id: String, value: T)
        ensures
            final(self)@ == old(self)@.insert(id@, value),
            final(self).entries() == (if old(self)@.contains_key(id@) {
                old(self).entries().update(old(self).position(id@), (id@, value))
            } else {
                old(self).entries().push((id@, value))
            }),
    {
        proof {
            use_type_invariant(&*self);
        }
        let ghost before = *self;
        let ghost key = id@;
        let found = self.index_of(&id);
        let mut slots: Vec<(String, T)> = Vec::new();
        core::mem::swap(&mut self.slots, &mut slots);
        let ghost place: int;
        match found {
            Some(i) => {
                slots.set(i, (id, value));
                proof {
                    place = i as int;
                }
            },
            None => {
                proof {
                    place = slots@.len() as int;
                    assert forall|j: int| 0 <= j < slots@.len() implies slots@[j].0@ != key by {
                        assert(before.has_at(j, slots@[j].0@));
                    }
                }
                slots.push((id, value));
            },
        }
        assert(slots@[place].0@ == key && slots@[place].1 == value);
        assert(forall|i: int, j: int|
            0 <= i < j < slots@.len() ==> slots@[i].0@ != slots@[j].0@);
        core::mem::swap(&mut self.slots, &mut slots);
        proof {
            if found is Some {
                assert(self.entries() =~= before.entries().update(place, (key, value)));
            } else {
                assert(self.entries() =~= before.entries().push((key, value)));
            }
        }
        proof {
            let after = *self;
            let goal = before@.insert(key, value);
            assert forall|k: Seq<char>| after@.dom().contains(k) == goal.dom().contains(k) by {
                if after@.dom().contains(k) {
                    let p = after.lemma_position(k);
                    if k != key {
                        assert(before.has_at(p, k));
                    }
                }
                if goal.dom().contains(k) {
                    if k == key {
                        assert(after.has_at(place, key));
                    } else {
                        let p = before.lemma_position(k);
                        assert(after.has_at(p, k));
                    }
                }
            }
            assert forall|k: Seq<char>| after@.dom().contains(k) implies after@[k] == goal[k] by {
                if k == key {
                    assert(after.has_at(place, key));
                    after.lemma_entry(place);
                } else {
                    assert(goal.dom().contains(k));
                    let p = before.lemma_position(k);
                    before.lemma_entry(p);
                    assert(after.has_at(p, k));
                    after.lemma_entry(p);
                }
            }
            assert(after@ =~= before@.insert(key, value));
        }
    }

    /// Removes `id` and hands back what was stored under it.
    pub fn remove(&mut self, id: &String) -> (r: Option<T>)
        ensures
            final(self)@ == old(self)@.remove(id@),
            r == (if old(self)@.contains_key(id@) {
                Some(old(self)@[id@])
            } else {
                None
            }),
            final(self).entries() == (if old(self)@.contains_key(id@) {
                old(self).entries().remove(old(self).position(id@))
            } else {
                old(self).entries()
            }),
    {
        proof {
            use_type_invariant(&*self);
        }
        let ghost before = *self;
        match self.index_of(id) {
            Some(i) => {
                let mut slots: Vec<(String, T)> = Vec::new();
                core::mem::swap(&mut self.slots, &mut slots);
                let taken = slots.remove(i);
                core::mem::swap(&mut self.slots, &mut slots);
                proof {
                    let after = *self;
                    before.lemma_entry(i as int);
                    assert(after.entries() =~= before.entries().remove(i as int));
                    let goal = before@.remove(id@);
                    assert forall|k: Seq<char>|
                        after@.dom().contains(k) == goal.dom().contains(k) by {
                        if after@.dom().contains(k) {
                            let q = after.lemma_position(k);
                            let p = if q < i { q } else { q + 1 };
                            assert(before.has_at(p, k));
                        }
                        if goal.dom().contains(k) {
                            let p = before.lemma_position(k);
                            let q = if p < i { p } else { p - 1 };
                            assert(after.has_at(q, k));
                        }
                    }
                    assert forall|k: Seq<char>| after@.dom().contains(k) implies after@[k]
                        == goal[k] by {
                        assert(goal.dom().contains(k));
                        let p = before.lemma_position(k);
                        before.lemma_entry(p);
                        let q = if p < i { p } else { p - 1 };
                        assert(after.has_at(q, k));
                        after.lemma_entry(q);
                    }
                    assert(after@ =~= before@.remove(id@));
                }
                Some(taken.1)
            },
            None => {
                assert(self@ =~= before@.remove(id@));
                None
            },
        }
    }

    /// Takes the last stored entry out of the mapping.
    pub fn pop(&mut self) -> (r: Option<(String, T)>)
        ensures
            match r {
                Some(e) => old(self).entries().len() > 0
                    && (e.0@, e.1) == old(self).entries().last()
                    && final(self).entries() == old(self).entries().drop_last()
                    && old(self)@.contains_key(e.0@)
                    && old(self)@[e.0@] == e.1
                    && final(self)@ == old(self)@.remove(e.0@),
                None => old(self).entries().len() == 0 && final(self).entries().len() == 0
                    && old(self)@ == Map::<Seq<char>, T>::empty()
                    && final(self)@ == Map::<Seq<char>, T>::empty(),
            },
    {
        proof {
            use_type_invariant(&*self);
        }
        let ghost before = *self;
        let n = self.slots.len();
        if n == 0 {
            assert(self@ =~= Map::<Seq<char>, T>::empty());
            return None;
        }
        let mut slots: Vec<(String, T)> = Vec::new();
        core::mem::swap(&mut self.slots, &mut slots);
        let taken = slots.pop();
        core::mem::swap(&mut self.slots, &mut slots);
        let e = taken.unwrap();
        proof {
            let after = *self;
            let i = n - 1;
            before.lemma_entry(i);
            assert(after.entries() =~= before.entries().drop_last());
            let goal = before@.remove(e.0@);
            assert forall|k: Seq<char>| after@.dom().contains(k) == goal.dom().contains(k) by {
                if after@.dom().contains(k) {
                    let q = after.lemma_position(k);
                    assert(before.has_at(q, k));
                }
                if goal.dom().contains(k) {
                    let p = before.lemma_position(k);
                    assert(after.has_at(p, k));
                }
            }
            assert forall|k: Seq<char>| after@.dom().contains(k) implies after@[k] == goal[k] by {
                assert(goal.dom().contains(k));
                let p = before.lemma_position(k);
                before.lemma_entry(p);
                assert(after.has_at(p, k));
                after.lemma_entry(p);
            }
            assert(after@ =~= before@.remove(e.0@));
        }
        Some(e)
    }
}

} // verus!
