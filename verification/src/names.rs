//! A table from names to values that remembers in which order names were added.

use vstd::prelude::*;
use crate::text::{copy_texts, same_text, texts};

verus! {

/// A table from names to values. No name occurs twice.
pub struct NameMap<V> {
    keys: Vec<String>,
    values: Vec<V>,
}

impl<V> View for NameMap<V> {
    type V = Map<Seq<char>, V>;

    closed spec fn view(&self) -> Map<Seq<char>, V> {
        let keys = texts(self.keys@);
        Map::new(
            |name: Seq<char>| keys.contains(name),
            |name: Seq<char>| self.values@[keys.index_of(name)],
        )
    }
}

impl<V> NameMap<V> {
    /// The names of the table in the order in which they were added.
    pub closed spec fn names(&self) -> Seq<Seq<char>> {
        texts(self.keys@)
    }

    #[verifier::type_invariant]
    spec fn well_formed(&self) -> bool {
        &&& self.keys@.len() == self.values@.len()
        &&& texts(self.keys@).no_duplicates()
    }

    /// A table without names.
    pub fn new() -> (map: Self)
        ensures
            map@ == Map::<Seq<char>, V>::empty(),
            map.names() == Seq::<Seq<char>>::empty(),
    {
        let map = NameMap { keys: Vec::new(), values: Vec::new() };
        assert(map@ =~= Map::<Seq<char>, V>::empty());
        map
    }

    /// The position of a name; the number of names when it is not in the table.
    fn position(&self, name: &str) -> (i: usize)
        ensures
            i <= self.keys@.len(),
            i < self.keys@.len() <==> texts(self.keys@).contains(name@),
            i < self.keys@.len() ==> self.keys@[i as int]@ == name@ && texts(self.keys@).index_of(
                name@,
            ) == i,
    {
        proof {
            use_type_invariant(self);
        }
        let mut i: usize = 0;
        while i < self.keys.len()
            invariant
                i <= self.keys@.len(),
                texts(self.keys@).no_duplicates(),
                forall|k: int| 0 <= k < i ==> texts(self.keys@)[k] != name@,
            decreases self.keys.len() - i,
        {
            assert(texts(self.keys@)[i as int] == self.keys@[i as int]@);
            if same_text(self.keys[i].as_str(), name) {
                assert(texts(self.keys@).index_of(name@) == i);
                return i;
            }
            i += 1;
        }
        i
    }

    /// Enters a value under a name, in place of the value that the name had.
    pub fn insert(&mut self, name: String, value: V)
        ensures
            final(self)@ == old(self)@.insert(name@, value),
            final(self).names() == if old(self)@.contains_key(name@) {
                old(self).names()
            } else {
                old(self).names().push(name@)
            },
    {
        let i = self.position(name.as_str());
        proof {
            use_type_invariant(&*self);
        }
        let ghost before = texts(self.keys@);
        let mut empty: Self = NameMap { keys: Vec::new(), values: Vec::new() };
        std::mem::swap(self, &mut empty);
        let NameMap { mut keys, mut values } = empty;
        if i < keys.len() {
            values.set(i, value);
        } else {
            keys.push(name);
            values.push(value);
            assert(texts(keys@) == before.push(name@));
        }
        *self = NameMap { keys, values };
        proof {
            let after = texts(self.keys@);
            assert(after[i as int] == name@);
            assert(after.index_of(name@) == i);
            assert forall|n: Seq<char>| n != name@ implies after.contains(n) == before.contains(n) by {
                if before.contains(n) {
                    assert(after[before.index_of(n)] == n);
                }
                if after.contains(n) {
                    assert(before[after.index_of(n)] == n);
                }
            }
            assert forall|n: Seq<char>| n != name@ && before.contains(n) implies after.index_of(n)
                == before.index_of(n) by {
                assert(after[before.index_of(n)] == n);
            }
            assert(self@ =~= old(self)@.insert(name@, value));
        }
    }

    /// The number of names.
    pub fn len(&self) -> (n: usize)
        ensures
            n == self.names().len(),
            n == self@.len(),
            self@.dom().finite(),
    {
        proof {
            use_type_invariant(self);
            let keys = texts(self.keys@);
            keys.unique_seq_to_set();
            assert(self@.dom() =~= keys.to_set());
        }
        self.keys.len()
    }

    /// The names in the order in which they were added.
    pub fn list(&self) -> (out: Vec<String>)
        ensures
            texts(out@) == self.names(),
            self.names().no_duplicates(),
            forall|name: Seq<char>| self.names().contains(name) <==> self@.contains_key(name),
    {
        proof {
            use_type_invariant(self);
        }
        copy_texts(&self.keys)
    }
}

impl<V: Copy> NameMap<V> {
    /// The value under a name.
    pub fn get(&self, name: &str) -> (r: Option<V>)
        ensures
            r == (if self@.contains_key(name@) {
                Some(self@[name@])
            } else {
                None
            }),
    {
        let i = self.position(name);
        proof {
            use_type_invariant(self);
        }
        if i < self.keys.len() {
            Some(self.values[i])
        } else {
            None
        }
    }
}

}
