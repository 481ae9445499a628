use vstd::prelude::*;

verus! {

/// One named record of a wallet scope.
pub struct Entry<V> {
    pub handle: i32,
    pub name: String,
    pub value: V,
}

/// Records addressed by a wallet handle and a name, at most one per pair.
pub struct Table<V> {
    entries: Vec<Entry<V>>,
    model: Ghost<Map<(i32, Seq<char>), V>>,
}

/// The (handle, name) pair that addresses an entry.
pub open spec fn key_of<V>(e: Entry<V>) -> (i32, Seq<char>) {
    (e.handle, e.name@)
}

impl<V> Table<V> {
    /// The records held, by (handle, name).
    pub closed spec fn view(&self) -> Map<(i32, Seq<char>), V> {
        self.model@
    }

    /// The entries and the model agree, and no two entries share a key.
    pub closed spec fn wf(&self) -> bool {
        &&& forall|i: int| 0 <= i < self.entries.len() ==> {
            &&& self.model@.contains_key(key_of(#[trigger] self.entries[i]))
            &&& self.model@[key_of(self.entries[i])] == self.entries[i].value
        }
        &&& forall|k: (i32, Seq<char>)| #[trigger] self.model@.contains_key(k) ==>
            exists|i: int| 0 <= i < self.entries.len() && key_of(#[trigger] self.entries[i]) == k
        &&& forall|i: int, j: int| 0 <= i < j < self.entries.len() ==>
            key_of(#[trigger] self.entries[i]) != key_of(#[trigger] self.entries[j])
    }

    pub fn new() -> (t: Self)
        ensures
            t.wf(),
            t@ == Map::<(i32, Seq<char>), V>::empty(),
    {
        Table { entries: Vec::new(), model: Ghost(Map::empty()) }
    }

    fn find(&self, handle: i32, name: &String) -> (r: Option<usize>)
        requires
            self.wf(),
        ensures
            match r {
                Some(i) => i < self.entries.len() && key_of(self.entries[i as int]) == (handle, name@),
                None => !self@.contains_key((handle, name@)),
            },
    {
        let mut i: usize = 0;
        while i < self.entries.len()
            invariant
                self.wf(),
                i <= self.entries.len(),
                forall|j: int| 0 <= j < i ==> key_of(#[trigger] self.entries[j]) != (handle, name@),
            decreases self.entries.len() - i,
        {
            if self.entries[i].handle == handle && self.entries[i].name == *name {
                return Some(i);
            }
            i = i + 1;
        }
        None
    }

    /// The record under `(handle, name)`, if there is one.
    pub fn get(&self, handle: i32, name: &String) -> (r: Option<&V>)
        requires
            self.wf(),
        ensures
            match r {
                Some(v) => self@.contains_key((handle, name@)) && *v == self@[(handle, name@)],
                None => !self@.contains_key((handle, name@)),
            },
    {
        match self.find(handle, name) {
            Some(i) => Some(&self.entries[i].value),
            None => None,
        }
    }

    /// Adds a record; refuses a name that the scope already holds.
    pub fn add(&mut self, handle: i32, name: &String, value: V) -> (r: Result<(), crate::ErrorKind>)
        requires
            old(self).wf(),
        ensures
            final(self).wf(),
            old(self)@.contains_key((handle, name@)) ==> {
                &&& r == Err::<(), crate::ErrorKind>(crate::ErrorKind::WalletItemAlreadyExists)
                &&& final(self)@ == old(self)@
            },
            !old(self)@.contains_key((handle, name@)) ==> {
                &&& r is Ok
                &&& final(self)@ == old(self)@.insert((handle, name@), value)
            },
    {
        match self.find(handle, name) {
            Some(_) => Err(crate::ErrorKind::WalletItemAlreadyExists),
            None => {
                self.push_new(handle, name, value);
                Ok(())
            },
        }
    }

    fn push_new(&mut self, handle: i32, name: &String, value: V)
        requires
            old(self).wf(),
            !old(self)@.contains_key((handle, name@)),
        ensures
            final(self).wf(),
            final(self)@ == old(self)@.insert((handle, name@), value),
    {
        let ghost k = (handle, name@);
        let ghost old_entries = self.entries@;
        self.entries.push(Entry { handle, name: name.clone(), value });
        self.model = Ghost(self.model@.insert(k, value));
        assert(key_of(self.entries[old_entries.len() as int]) == k);
        assert forall|i: int| 0 <= i < old_entries.len() implies key_of(#[trigger] self.entries[i]) != k by {
            assert(self.entries[i] == old_entries[i]);
            assert(old(self).model@.contains_key(key_of(old_entries[i])));
        }
        assert forall|k2: (i32, Seq<char>)| #[trigger] self.model@.contains_key(k2) implies
            exists|i: int| 0 <= i < self.entries.len() && key_of(#[trigger] self.entries[i]) == k2 by {
            if k2 != k {
                let i: int = choose|i: int| 0 <= i < old_entries.len() && key_of(#[trigger] old(self).entries[i]) == k2;
                assert(self.entries[i] == old_entries[i]);
            }
        }
    }

    /// Stores `value` under `(handle, name)`, replacing any earlier record.
    pub fn upsert(&mut self, handle: i32, name: &String, value: V)
        requires
            old(self).wf(),
        ensures
            final(self).wf(),
            final(self)@ == old(self)@.insert((handle, name@), value),
    {
        match self.find(handle, name) {
            Some(i) => {
                let ghost k = (handle, name@);
                let ghost old_entries = self.entries@;
                let n = self.entries[i].name.clone();
                self.entries.set(i, Entry { handle, name: n, value });
                self.model = Ghost(self.model@.insert(k, value));
                assert forall|j: int| 0 <= j < self.entries.len() && j != i implies
                    key_of(#[trigger] self.entries[j]) != k by {
                    assert(self.entries[j] == old_entries[j]);
                    if j < i {
                        assert(key_of(old_entries[j]) != key_of(old_entries[i as int]));
                    } else {
                        assert(key_of(old_entries[i as int]) != key_of(old_entries[j]));
                    }
                }
                assert forall|k2: (i32, Seq<char>)| #[trigger] self.model@.contains_key(k2) implies
                    exists|j: int| 0 <= j < self.entries.len() && key_of(#[trigger] self.entries[j]) == k2 by {
                    if k2 == k {
                        assert(key_of(self.entries[i as int]) == k2);
                    } else {
                        let j: int = choose|j: int| 0 <= j < old_entries.len() && key_of(#[trigger] old(self).entries[j]) == k2;
                        assert(self.entries[j] == old_entries[j]);
                    }
                }
            },
            None => self.push_new(handle, name, value),
        }
    }
}

} // verus!
