//! A table from names to values, in which no name occurs twice.
//!
//! The entries stay in the order in which their names first came in, so that
//! walking the table gives the same order every time.

use vstd::prelude::*;
use crate::text::same;

verus! {

/// A table from names to values.
#[derive(Debug)]
pub struct Table<V> {
    entries: Vec<(String, V)>,
}

impl<V> View for Table<V> {
    type V = Map<Seq<char>, V>;

    closed spec fn view(&self) -> Map<Seq<char>, V> {
        Map::new(
            |k: Seq<char>| self.keys().contains(k),
            |k: Seq<char>| self.entries@[self.keys().index_of(k)].1,
        )
    }
}

/// Puts `entry` in the place `i` of `entries`, and hands out what was there.
fn replace_at<V>(entries: &mut Vec<(String, V)>, i: usize, entry: (String, V)) -> (r: (String, V))
    requires
        i < old(entries)@.len(),
    ensures
        final(entries)@ == old(entries)@.update(i as int, entry),
        r == old(entries)@[i as int],
{
    entries.push(entry);
    let r = entries.swap_remove(i);
    assert(entries@ =~= old(entries)@.update(i as int, entry));
    r
}

impl<V> Table<V> {
    /// The names of the table, in the order in which they came in.
    pub closed spec fn keys(&self) -> Seq<Seq<char>> {
        Seq::new(self.entries@.len(), |i: int| self.entries@[i].0@)
    }

    #[verifier::type_invariant]
    spec fn well_formed(&self) -> bool {
        self.keys().no_duplicates()
    }

    /// The names of a table are what its view is defined on.
    pub proof fn lemma_keys_are_dom(&self)
        ensures
            self.keys().to_set() == self@.dom(),
    {
        assert(self.keys().to_set() =~= self@.dom());
    }

    /// Where the entry of a name stands, if the table has the name.
    fn position(&self, name: &str) -> (r: Option<usize>)
        ensures
            self.keys().no_duplicates(),
            match r {
                Some(i) => i < self.keys().len() && self.keys()[i as int] == name@ && self@[name@]
                    == self.entries@[i as int].1,
                None => !self.keys().contains(name@),
            },
            r is Some == self@.contains_key(name@),
    {
        proof {
            use_type_invariant(self);
        }
        let n = self.entries.len();
        let mut i: usize = 0;
        while i < n
            invariant
                n == self.entries@.len(),
                i <= n,
                self.keys().no_duplicates(),
                forall|j: int| 0 <= j < i ==> self.keys()[j] != name@,
            decreases n - i,
        {
            if same(self.entries[i].0.as_str(), name) {
                assert(self.keys()[i as int] == name@);
                assert(self.keys().contains(name@));
                let ghost at = self.keys().index_of(name@);
                assert(at == i);
                return Some(i);
            }
            i = i + 1;
        }
        None
    }

    /// Takes the entries out, and leaves the table without entries.
    fn take_entries(&mut self) -> (r: Vec<(String, V)>)
        ensures
            r == old(self).entries,
    {
        let mut taken = Table::new();
        core::mem::swap(self, &mut taken);
        let Table { entries } = taken;
        entries
    }

    /// The table without entries.
    pub fn new() -> (r: Self)
        ensures
            r@ == Map::<Seq<char>, V>::empty(),
            r.keys() == Seq::<Seq<char>>::empty(),
    {
        let r = Table { entries: Vec::new() };
        assert(r.keys() =~= Seq::<Seq<char>>::empty());
        assert(r@ =~= Map::<Seq<char>, V>::empty());
        r
    }

    /// The number of entries.
    pub fn len(&self) -> (r: usize)
        ensures
            r == self@.len(),
            r == self.keys().len(),
            self@.dom().finite(),
            self.keys().no_duplicates(),
    {
        proof {
            use_type_invariant(self);
            self.keys().unique_seq_to_set();
            self.lemma_keys_are_dom();
            vstd::seq_lib::seq_to_set_is_finite(self.keys());
        }
        self.entries.len()
    }

    /// Whether the table has an entry of that name.
    pub fn contains_key(&self, name: &str) -> (r: bool)
        ensures
            r == self@.contains_key(name@),
    {
        self.position(name).is_some()
    }

    /// The value of that name, if the table has it.
    pub fn get(&self, name: &str) -> (r: Option<&V>)
        ensures
            r is Some == self@.contains_key(name@),
            r matches Some(v) ==> *v == self@[name@],
    {
        match self.position(name) {
            Some(i) => Some(&self.entries[i].1),
            None => None,
        }
    }

    /// The name of the `i`-th entry.
    pub fn name_at(&self, i: usize) -> (r: &String)
        requires
            i < self.keys().len(),
        ensures
            r@ == self.keys()[i as int],
            self@.contains_key(r@),
    {
        assert(self.keys().contains(self.keys()[i as int]));
        &self.entries[i].0
    }

    /// The value of the `i`-th entry.
    pub fn value_at(&self, i: usize) -> (r: &V)
        requires
            i < self.keys().len(),
        ensures
            *r == self@[self.keys()[i as int]],
            self@.contains_key(self.keys()[i as int]),
    {
        proof {
            use_type_invariant(self);
            let k = self.keys()[i as int];
            assert(self.keys().contains(k));
            assert(self.keys().index_of(k) == i);
        }
        &self.entries[i].1
    }

    /// Gives `name` the value `value`, and hands out the value that the name
    /// had before. A new name goes to the end; a known one keeps its place.
    pub fn insert(&mut self, name: String, value: V) -> (r: Option<V>)
        ensures
            final(self)@ == old(self)@.insert(name@, value),
            r == if old(self)@.contains_key(name@) {
                Some(old(self)@[name@])
            } else {
                None::<V>
            },
            final(self).keys() == if old(self)@.contains_key(name@) {
                old(self).keys()
            } else {
                old(self).keys().push(name@)
            },
            final(self)@.dom().finite(),
    {
        proof {
            use_type_invariant(&*self);
            self.lemma_keys_are_dom();
            vstd::seq_lib::seq_to_set_is_finite(self.keys());
        }
        let found = self.position(name.as_str());
        let ghost before = *self;
        let ghost key = name@;
        let mut entries = self.take_entries();
        match found {
            Some(i) => {
                let old_entry = replace_at(&mut entries, i, (name, value));
                proof {
                    let keys = Seq::new(entries@.len(), |i: int| entries@[i].0@);
                    assert(keys =~= before.keys());
                }
                *self = Table { entries };
                proof {
                    assert(self.keys() =~= before.keys());
                    assert forall|k: Seq<char>| self@.dom().contains(k) implies #[trigger] self@[k]
                        == before@.insert(key, value)[k] by {
                        let at = self.keys().index_of(k);
                        assert(before.keys().contains(k));
                        assert(before.keys().index_of(k) == at);
                    }
                    assert(self@ =~= before@.insert(key, value));
                }
                Some(old_entry.1)
            },
            None => {
                entries.push((name, value));
                proof {
                    let keys = Seq::new(entries@.len(), |i: int| entries@[i].0@);
                    assert(keys =~= before.keys().push(key));
                    assert(keys.no_duplicates());
                }
                *self = Table { entries };
                proof {
                    assert(self.keys() =~= before.keys().push(key));
                    assert forall|k: Seq<char>| self@.dom().contains(k) == before@.insert(
                        key,
                        value,
                    ).dom().contains(k) by {
                        if before.keys().contains(k) {
                            let at = before.keys().index_of(k);
                            assert(self.keys()[at] == k);
                        }
                        if k == key {
                            assert(self.keys()[self.keys().len() - 1] == k);
                        }
                    }
                    assert forall|k: Seq<char>| self@.dom().contains(k) implies #[trigger] self@[k]
                        == before@.insert(key, value)[k] by {
                        let at = self.keys().index_of(k);
                        if k != key {
                            assert(before.keys()[at] == k);
                            assert(before.keys().index_of(k) == at);
                        }
                    }
                    assert(self@ =~= before@.insert(key, value));
                }
                None
            },
        }
    }

    /// Takes the entry of `name` out of the table and hands out its value,
    /// if the table has the name. The other entries stay as they are.
    pub fn remove(&mut self, name: &str) -> (r: Option<V>)
        ensures
            final(self)@ == old(self)@.remove(name@),
            r == if old(self)@.contains_key(name@) {
                Some(old(self)@[name@])
            } else {
                None::<V>
            },
            final(self).keys() == if old(self)@.contains_key(name@) {
                old(self).keys().remove(old(self).keys().index_of(name@))
            } else {
                old(self).keys()
            },
            final(self)@.dom().finite(),
    {
        proof {
            use_type_invariant(&*self);
            self.lemma_keys_are_dom();
            vstd::seq_lib::seq_to_set_is_finite(self.keys());
        }
        let found = self.position(name);
        let ghost before = *self;
        match found {
            Some(i) => {
                assert(before.keys().contains(name@));
                assert(before.keys().index_of(name@) == i);
                let mut entries = self.take_entries();
                let entry = entries.remove(i);
                proof {
                    let keys = Seq::new(entries@.len(), |i: int| entries@[i].0@);
                    assert(keys =~= before.keys().remove(i as int));
                    assert(keys.no_duplicates());
                }
                *self = Table { entries };
                proof {
                    assert(self.keys() =~= before.keys().remove(i as int));
                    assert forall|k: Seq<char>| self@.dom().contains(k) == before@.remove(
                        name@,
                    ).dom().contains(k) by {
                        if self.keys().contains(k) {
                            let at = self.keys().index_of(k);
                            if at < i {
                                assert(before.keys()[at] == k);
                            } else {
                                assert(before.keys()[at + 1] == k);
                            }
                        }
                        if before.keys().contains(k) && k != name@ {
                            let at = before.keys().index_of(k);
                            if at < i {
                                assert(self.keys()[at] == k);
                            } else {
                                assert(self.keys()[at - 1] == k);
                            }
                        }
                    }
                    assert forall|k: Seq<char>| self@.dom().contains(k) implies #[trigger] self@[k]
                        == before@.remove(name@)[k] by {
                        let at = self.keys().index_of(k);
                        if at < i {
                            assert(before.keys()[at] == k);
                            assert(before.keys().index_of(k) == at);
                        } else {
                            assert(before.keys()[at + 1] == k);
                            assert(before.keys().index_of(k) == at + 1);
                        }
                    }
                    assert(self@ =~= before@.remove(name@));
                }
                Some(entry.1)
            },
            None => {
                assert(self@ =~= before@.remove(name@));
                None
            },
        }
    }

    /// The values of the table, in the order of its names.
    pub fn values(&self) -> (r: Vec<&V>)
        ensures
            r@.len() == self.keys().len(),
            forall|i: int| 0 <= i < r@.len() ==> *r@[i] == self@[#[trigger] self.keys()[i]],
    {
        let n = self.len();
        let mut out: Vec<&V> = Vec::new();
        let mut i: usize = 0;
        while i < n
            invariant
                n == self.keys().len(),
                i <= n,
                out@.len() == i,
                forall|j: int| 0 <= j < i ==> *out@[j] == self@[#[trigger] self.keys()[j]],
            decreases n - i,
        {
            out.push(self.value_at(i));
            i = i + 1;
        }
        out
    }
}

} // verus!
