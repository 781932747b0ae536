//! A map keyed by small values that keeps its entries in insertion order.

use crate::id_map::{
    entry_is_found, filter_push, filter_then_lookup, has_key, lookup, position, put,
    put_then_lookup, unique_keys, without, without_then_lookup,
};
use vstd::prelude::*;

verus! {

/// A value that a [`KeyMap`] can be keyed by.
pub trait Key: Copy {
    /// Whether the two keys are the same.
    fn same(self, other: Self) -> (res: bool)
        ensures
            res == (self == other),
    ;
}

impl Key for u64 {
    fn same(self, other: Self) -> (res: bool) {
        self == other
    }
}

/// A map from small keys to values.
pub struct KeyMap<K: Key, V> {
    keys: Vec<K>,
    values: Vec<V>,
}

impl<K: Key, V: View> View for KeyMap<K, V> {
    type V = Seq<(K, V::V)>;

    closed spec fn view(&self) -> Seq<(K, V::V)> {
        Seq::new(self.keys@.len(), |i: int| (self.keys@[i], self.values@[i]@))
    }
}

impl<K: Key, V> KeyMap<K, V> {
    #[verifier::type_invariant]
    spec fn keys_are_unique(&self) -> bool {
        &&& self.keys@.len() == self.values@.len()
        &&& forall|i: int, j: int|
            0 <= i < j < self.keys@.len() ==> self.keys@[i] != self.keys@[j]
    }
}

impl<K: Key, V: View> KeyMap<K, V> {
    pub fn new() -> (res: Self)
        ensures
            res@ == Seq::<(K, V::V)>::empty(),
    {
        let res = KeyMap { keys: Vec::new(), values: Vec::new() };
        assert(res@ =~= Seq::<(K, V::V)>::empty());
        res
    }

    /// The index of the entry with the key `key`.
    fn find(&self, key: K) -> (res: Option<usize>)
        ensures
            match res {
                Some(i) => has_key(self@, key) && i < self@.len() && i == position(self@, key),
                None => !has_key(self@, key),
            },
    {
        proof {
            use_type_invariant(self);
        }
        let mut i: usize = 0;
        while i < self.keys.len()
            invariant
                i <= self.keys@.len(),
                forall|j: int| 0 <= j < i ==> self@[j].0 != key,
            decreases self.keys@.len() - i,
        {
            if self.keys[i].same(key) {
                proof {
                    use_type_invariant(self);
                    assert(self@[i as int].0 == key);
                    entry_is_found(self@, i as int);
                }
                return Some(i);
            }
            i = i + 1;
        }
        None
    }

    pub fn len(&self) -> (res: usize)
        ensures
            res == self@.len(),
            unique_keys(self@),
    {
        proof {
            use_type_invariant(self);
        }
        self.keys.len()
    }

    pub fn is_empty(&self) -> (res: bool)
        ensures
            res == (self@.len() == 0),
            unique_keys(self@),
    {
        self.len() == 0
    }

    pub fn contains_key(&self, key: K) -> (res: bool)
        ensures
            res == has_key(self@, key),
            unique_keys(self@),
    {
        proof {
            use_type_invariant(self);
        }
        self.find(key).is_some()
    }

    pub fn get(&self, key: K) -> (res: Option<&V>)
        ensures
            match res {
                Some(v) => has_key(self@, key) && lookup(self@, key) == Some(v@),
                None => !has_key(self@, key) && lookup(self@, key) is None,
            },
            unique_keys(self@),
    {
        proof {
            use_type_invariant(self);
        }
        match self.find(key) {
            Some(i) => Some(&self.values[i]),
            None => None,
        }
    }

    pub fn get_mut(&mut self, key: K) -> (res: Option<&mut V>)
        ensures
            match res {
                Some(v) => has_key(old(self)@, key) && lookup(old(self)@, key) == Some(v@)
                    && final(self)@ == put(old(self)@, key, final(v)@),
                None => !has_key(old(self)@, key) && final(self)@ == old(self)@,
            },
            unique_keys(old(self)@),
    {
        proof {
            use_type_invariant(&*self);
        }
        match self.find(key) {
            Some(i) => Some(&mut self.values[i]),
            None => None,
        }
    }

    /// The key of the entry at `index`.
    pub fn key_at(&self, index: usize) -> (res: K)
        requires
            index < self@.len(),
        ensures
            res == self@[index as int].0,
    {
        self.keys[index]
    }

    /// The value of the entry at `index`.
    pub fn value_at(&self, index: usize) -> (res: &V)
        requires
            index < self@.len(),
        ensures
            res@ == self@[index as int].1,
    {
        proof {
            use_type_invariant(self);
        }
        &self.values[index]
    }

    /// Stores `value` under `key`, returning the value it replaced.
    pub fn insert(&mut self, key: K, value: V) -> (res: Option<V>)
        ensures
            final(self)@ == put(old(self)@, key, value@),
            match res {
                Some(v) => lookup(old(self)@, key) == Some(v@),
                None => lookup(old(self)@, key) is None,
            },
            unique_keys(old(self)@),
            unique_keys(final(self)@),
    {
        proof {
            use_type_invariant(&*self);
            put_then_lookup(self@, key, value@);
        }
        match self.find(key) {
            Some(i) => {
                let mut swapped = value;
                std::mem::swap(&mut swapped, &mut self.values[i]);
                assert(self@ =~= put(old(self)@, key, value@));
                Some(swapped)
            },
            None => {
                assert forall|i: int| 0 <= i < self.keys@.len() implies self.keys@[i] != key by {
                    assert(self@[i].0 == self.keys@[i]);
                }
                let mut taken = KeyMap::new();
                std::mem::swap(&mut taken, self);
                let KeyMap { mut keys, mut values } = taken;
                keys.push(key);
                values.push(value);
                *self = KeyMap { keys, values };
                assert(self@ =~= put(old(self)@, key, value@));
                None
            },
        }
    }

    /// Removes the entry at `index`.
    pub fn remove_at(&mut self, index: usize) -> (res: (K, V))
        requires
            index < old(self)@.len(),
        ensures
            (res.0, res.1@) == old(self)@[index as int],
            final(self)@ == old(self)@.remove(index as int),
    {
        proof {
            use_type_invariant(&*self);
        }
        let mut taken = KeyMap::new();
        std::mem::swap(&mut taken, self);
        let KeyMap { mut keys, mut values } = taken;
        let id = keys.remove(index);
        let value = values.remove(index);
        *self = KeyMap { keys, values };
        assert(self@ =~= old(self)@.remove(index as int));
        (id, value)
    }

    /// Removes the entry stored under `key`, returning its value.
    pub fn remove(&mut self, key: K) -> (res: Option<V>)
        ensures
            final(self)@ == without(old(self)@, key),
            match res {
                Some(v) => lookup(old(self)@, key) == Some(v@),
                None => lookup(old(self)@, key) is None,
            },
            unique_keys(old(self)@),
            unique_keys(final(self)@),
    {
        proof {
            use_type_invariant(&*self);
            without_then_lookup(self@, key);
        }
        match self.find(key) {
            Some(i) => Some(self.remove_at(i).1),
            None => None,
        }
    }

    /// Keeps the entries that `keep` accepts, in their order. `accepted` is
    /// what `keep` computes.
    pub(crate) fn retain<F: Fn(K, &V) -> bool>(
        &mut self,
        keep: F,
        Ghost(accepted): Ghost<spec_fn((K, V::V)) -> bool>,
    )
        requires
            forall|k: K, v: &V| #[trigger] keep.requires((k, v)),
            forall|k: K, v: &V, b: bool| #[trigger]
                keep.ensures((k, v), b) ==> b == accepted((k, v@)),
        ensures
            final(self)@ == old(self)@.filter(accepted),
            unique_keys(old(self)@),
            unique_keys(final(self)@),
    {
        proof {
            use_type_invariant(&*self);
            filter_then_lookup(self@, accepted);
        }
        let ghost all = self@;
        let mut i: usize = 0;
        let ghost mut seen: int = 0;
        assert(all.take(0).filter(accepted) =~= self@.take(0)) by {
            reveal(Seq::filter);
        }
        assert(all.skip(0) =~= self@.skip(0));
        while i < self.len()
            invariant
                0 <= i <= self@.len(),
                0 <= seen <= all.len(),
                self@.take(i as int) == all.take(seen).filter(accepted),
                self@.skip(i as int) == all.skip(seen),
                forall|k: K, v: &V| #[trigger] keep.requires((k, v)),
                forall|k: K, v: &V, b: bool| #[trigger]
                    keep.ensures((k, v), b) ==> b == accepted((k, v@)),
            decreases self@.len() - i,
        {
            let ghost before = self@;
            let kept = keep(self.key_at(i), self.value_at(i));
            proof {
                assert(before.skip(i as int).len() == all.skip(seen).len());
                assert(before.skip(i as int)[0] == before[i as int]);
                assert(all.skip(seen)[0] == all[seen]);
                assert(before[i as int] == all[seen]);
                assert(kept == accepted(all[seen]));
                assert(all.take(seen + 1) =~= all.take(seen).push(all[seen]));
                filter_push(all.take(seen), accepted, all[seen]);
                seen = seen + 1;
            }
            if kept {
                i = i + 1;
                assert(self@.take(i as int) =~= before.take(i - 1).push(before[i - 1]));
                assert(self@.skip(i as int) =~= before.skip(i - 1).skip(1));
            } else {
                self.remove_at(i);
                assert(self@.take(i as int) =~= before.take(i as int));
                assert(self@.skip(i as int) =~= before.skip(i as int).skip(1));
            }
            assert(all.skip(seen) =~= all.skip(seen - 1).skip(1));
        }
        proof {
            assert(self@.skip(i as int).len() == 0);
            assert(all.take(seen) =~= all);
            assert(self@.take(i as int) =~= self@);
        }
    }
}

} // verus!
