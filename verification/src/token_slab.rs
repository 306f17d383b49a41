use vstd::prelude::*;

verus! {

/// A fixed-capacity table that hands out a small integer key (a token) for
/// each value stored in it, and reuses the key of a removed value, most
/// recently freed first.
pub struct TokenSlab<T> {
    entries: Vec<Option<T>>,
    free: Vec<usize>,
    capacity: usize,
}

impl<T> View for TokenSlab<T> {
    type V = Map<usize, T>;

    /// The values stored, by key.
    closed spec fn view(&self) -> Map<usize, T> {
        Map::new(
            |k: usize| (k as int) < self.entries@.len() && self.entries@[k as int] is Some,
            |k: usize| self.entries@[k as int]->Some_0,
        )
    }
}

impl<T> TokenSlab<T> {
    /// The most values the table ever holds at once.
    pub closed spec fn spec_capacity(&self) -> nat {
        self.capacity as nat
    }

    /// The key the next value goes under: the most recently freed one, else
    /// the first never used, else none when the table is full.
    pub closed spec fn next_key(&self) -> Option<usize> {
        if self.free@.len() > 0 {
            Some(self.free@.last())
        } else if self.entries@.len() < self.capacity {
            Some(self.entries@.len() as usize)
        } else {
            None
        }
    }

    /// The table's internal invariant: every empty slot is on the free list
    /// exactly once, and the number of values matches the slots in use.
    pub closed spec fn wf(&self) -> bool {
        &&& self.entries@.len() <= self.capacity
        &&& self.free@.no_duplicates()
        &&& forall|i: int|
            0 <= i < self.free@.len() ==> (#[trigger] self.free@[i] as int) < self.entries@.len()
                && self.entries@[self.free@[i] as int] is None
        &&& forall|k: int|
            0 <= k < self.entries@.len() && #[trigger] self.entries@[k] is None
                ==> self.free@.contains(k as usize)
        &&& self.view().dom().finite()
        &&& self.view().len() == self.entries@.len() - self.free@.len()
    }

    /// The table never holds more values than its capacity.
    pub proof fn lemma_len_within_capacity(&self)
        requires
            self.wf(),
        ensures
            self.view().len() <= self.spec_capacity(),
    {
    }

    /// An empty table that can hold up to `capacity` values.
    pub fn new(capacity: usize) -> (s: Self)
        ensures
            s.wf(),
            s.view() == Map::<usize, T>::empty(),
            s.spec_capacity() == capacity,
    {
        let s = TokenSlab { entries: Vec::new(), free: Vec::new(), capacity };
        assert(s.view() =~= Map::<usize, T>::empty());
        s
    }

    /// The most values the table holds at once.
    pub fn capacity(&self) -> (c: usize)
        ensures
            c == self.spec_capacity(),
    {
        self.capacity
    }

    /// How many values the table holds.
    pub fn count(&self) -> (n: usize)
        requires
            self.wf(),
        ensures
            n == self.view().len(),
    {
        self.entries.len() - self.free.len()
    }

    /// Whether another value fits.
    pub fn has_remaining(&self) -> (b: bool)
        requires
            self.wf(),
        ensures
            b == (self.view().len() < self.spec_capacity()),
    {
        self.entries.len() - self.free.len() < self.capacity
    }

    /// Whether `key` holds a value.
    pub fn contains(&self, key: usize) -> (b: bool)
        ensures
            b == self.view().dom().contains(key),
    {
        key < self.entries.len() && self.entries[key].is_some()
    }

    /// The value stored under `key`, if any.
    pub fn get(&self, key: usize) -> (r: Option<&T>)
        ensures
            r == (if self.view().dom().contains(key) {
                Some(&self.view()[key])
            } else {
                None
            }),
    {
        if key < self.entries.len() {
            self.entries[key].as_ref()
        } else {
            None
        }
    }

    /// The key the next value would go under, or nothing when the table is
    /// full.
    pub fn vacant_key(&self) -> (r: Option<usize>)
        requires
            self.wf(),
        ensures
            r == self.next_key(),
            r is None <==> self.view().len() >= self.spec_capacity(),
            r matches Some(k) ==> !self.view().dom().contains(k) && k < self.spec_capacity(),
    {
        if self.free.len() > 0 {
            let k: usize = self.free[self.free.len() - 1];
            proof {
                assert(self.free@.contains(k));
            }
            Some(k)
        } else if self.entries.len() < self.capacity {
            Some(self.entries.len())
        } else {
            None
        }
    }

    /// Stores `val` under a key that holds nothing, or gives nothing back when
    /// the table is full.
    pub fn insert(&mut self, val: T) -> (r: Option<usize>)
        requires
            old(self).wf(),
        ensures
            final(self).wf(),
            final(self).spec_capacity() == old(self).spec_capacity(),
            r == old(self).next_key(),
            r is None <==> old(self).view().len() >= old(self).spec_capacity(),
            r is None ==> final(self).view() == old(self).view(),
            r matches Some(k) ==> {
                &&& !old(self).view().dom().contains(k)
                &&& k < old(self).spec_capacity()
                &&& final(self).view() == old(self).view().insert(k, val)
            },
    {
        let ghost old_view = self.view();
        if self.free.len() > 0 {
            let ghost old_free = self.free@;
            let k: usize = self.free.pop().unwrap();
            proof {
                assert(old_free[old_free.len() - 1] == k);
                assert(self.free@ =~= old_free.drop_last());
                assert forall|i: int| 0 <= i < self.free@.len() implies self.free@[i] != k by {
                    assert(old_free[i] == self.free@[i]);
                }
            }
            self.entries.set(k, Some(val));
            proof {
                assert(self.view() =~= old_view.insert(k, val));
                assert forall|j: int|
                    0 <= j < self.entries@.len() && #[trigger] self.entries@[j] is None
                    implies self.free@.contains(j as usize) by {
                    assert(j != k);
                    assert(old_free.contains(j as usize));
                    let w: int = choose|w: int| 0 <= w < old_free.len() && old_free[w] == j as usize;
                    assert(w != old_free.len() - 1);
                    assert(self.free@[w] == j as usize);
                }
            }
            Some(k)
        } else if self.entries.len() < self.capacity {
            let k: usize = self.entries.len();
            self.entries.push(Some(val));
            proof {
                assert(self.view() =~= old_view.insert(k, val));
            }
            Some(k)
        } else {
            None
        }
    }

    /// Takes out the value stored under `key`, which frees the key.
    pub fn remove(&mut self, key: usize) -> (r: Option<T>)
        requires
            old(self).wf(),
        ensures
            final(self).wf(),
            final(self).spec_capacity() == old(self).spec_capacity(),
            final(self).view() == old(self).view().remove(key),
            old(self).view().dom().contains(key) ==> final(self).next_key() == Some(key),
            r == (if old(self).view().dom().contains(key) {
                Some(old(self).view()[key])
            } else {
                None
            }),
    {
        let ghost old_view = self.view();
        if key < self.entries.len() && self.entries[key].is_some() {
            let ghost old_free = self.free@;
            let mut slot = None;
            std::mem::swap(&mut slot, &mut self.entries[key]);
            self.free.push(key);
            proof {
                assert(self.view() =~= old_view.remove(key));
                assert(!old_free.contains(key));
                assert forall|i: int, j: int|
                    0 <= i < self.free@.len() && 0 <= j < self.free@.len() && i != j
                    implies self.free@[i] != self.free@[j] by {
                    if i == old_free.len() as int {
                        assert(old_free[j] != key);
                    } else if j == old_free.len() as int {
                        assert(old_free[i] != key);
                    }
                }
                assert forall|j: int|
                    0 <= j < self.entries@.len() && #[trigger] self.entries@[j] is None
                    implies self.free@.contains(j as usize) by {
                    if j != key {
                        let w: int = choose|w: int| 0 <= w < old_free.len() && old_free[w] == j as usize;
                        assert(self.free@[w] == j as usize);
                    } else {
                        assert(self.free@[old_free.len() as int] == key);
                    }
                }
                assert(self.free@.last() == key);
            }
            slot
        } else {
            proof {
                assert(self.view() =~= old_view.remove(key));
            }
            None
        }
    }

    /// A mutable reference to the value stored under `key`, if any.
    pub fn get_mut(&mut self, key: usize) -> (r: Option<&mut T>)
        requires
            old(self).wf(),
        ensures
            final(self).spec_capacity() == old(self).spec_capacity(),
            r is None ==> !old(self).view().dom().contains(key),
            r is None ==> final(self).view() == old(self).view(),
            r is None ==> final(self).wf(),
            r matches Some(m) ==> {
                &&& old(self).view().dom().contains(key)
                &&& *m == old(self).view()[key]
                &&& final(self).view() == old(self).view().insert(key, *final(m))
                &&& final(self).wf()
            },
    {
        if key < self.entries.len() && self.entries[key].is_some() {
            self.entries[key].as_mut()
        } else {
            None
        }
    }
}

} // verus!
