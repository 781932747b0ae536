//! A map keyed by text ids that keeps its entries in insertion order, and the
//! mathematics of such maps: sequences of key-value pairs without duplicate
//! keys.

use crate::text::str_eq;
use vstd::prelude::*;

verus! {

/// No key occurs twice.
pub open spec fn unique_keys<K, V>(s: Seq<(K, V)>) -> bool {
    forall|i: int, j: int| 0 <= i < j < s.len() ==> s[i].0 != s[j].0
}

/// Some entry has the key `k`.
pub open spec fn has_key<K, V>(s: Seq<(K, V)>, k: K) -> bool {
    exists|i: int| 0 <= i < s.len() && s[i].0 == k
}

/// The index of the entry with the key `k`.
pub open spec fn position<K, V>(s: Seq<(K, V)>, k: K) -> int {
    choose|i: int| 0 <= i < s.len() && s[i].0 == k
}

/// The value stored under `k`, if there is one.
pub open spec fn lookup<K, V>(s: Seq<(K, V)>, k: K) -> Option<V> {
    if has_key(s, k) {
        Some(s[position(s, k)].1)
    } else {
        None
    }
}

/// The entries after `v` was stored under `k`: in the place of an earlier
/// value, at the end where there was none.
pub open spec fn put<K, V>(s: Seq<(K, V)>, k: K, v: V) -> Seq<(K, V)> {
    if has_key(s, k) {
        s.update(position(s, k), (k, v))
    } else {
        s.push((k, v))
    }
}

/// The entries without the one stored under `k`.
pub open spec fn without<K, V>(s: Seq<(K, V)>, k: K) -> Seq<(K, V)> {
    if has_key(s, k) {
        s.remove(position(s, k))
    } else {
        s
    }
}

/// The keys, in order.
pub open spec fn keys<K, V>(s: Seq<(K, V)>) -> Seq<K> {
    s.map_values(|e: (K, V)| e.0)
}

/// The entries stored under another key than `k`.
pub open spec fn others<K, V>(s: Seq<(K, V)>, k: K) -> Seq<(K, V)> {
    s.filter(|e: (K, V)| e.0 != k)
}

/// The entry at index `i` is the one found under its key.
pub proof fn entry_is_found<K, V>(s: Seq<(K, V)>, i: int)
    requires
        unique_keys(s),
        0 <= i < s.len(),
    ensures
        has_key(s, s[i].0),
        position(s, s[i].0) == i,
        lookup(s, s[i].0) == Some(s[i].1),
{
}

/// After storing, the key has the new value and every other key keeps its own.
pub proof fn put_then_lookup<K, V>(s: Seq<(K, V)>, k: K, v: V)
    requires
        unique_keys(s),
    ensures
        unique_keys(put(s, k, v)),
        has_key(put(s, k, v), k),
        lookup(put(s, k, v), k) == Some(v),
        forall|other: K| other != k ==> #[trigger] lookup(put(s, k, v), other) == lookup(s, other),
        forall|other: K| #[trigger] has_key(put(s, k, v), other) <==> (other == k || has_key(s, other)),
        put(s, k, v).len() == if has_key(s, k) {
            s.len()
        } else {
            s.len() + 1
        },
{
    let t = put(s, k, v);
    let at = if has_key(s, k) {
        position(s, k)
    } else {
        s.len() as int
    };
    assert(t[at].0 == k);
    entry_is_found(t, at);
    assert forall|other: K| other != k implies #[trigger] lookup(t, other) == lookup(s, other) by {
        if has_key(s, other) {
            let i = position(s, other);
            assert(t[i] == s[i]);
            entry_is_found(t, i);
        }
        if has_key(t, other) {
            let i = position(t, other);
            assert(t[i] == s[i]);
            entry_is_found(s, i);
        }
    }
    assert forall|other: K| #[trigger] has_key(t, other) <==> (other == k || has_key(s, other)) by {
        if other != k {
            assert(lookup(t, other) == lookup(s, other));
        }
    }
}

/// After removing, the key is gone and every other key keeps its value.
pub proof fn without_then_lookup<K, V>(s: Seq<(K, V)>, k: K)
    requires
        unique_keys(s),
    ensures
        unique_keys(without(s, k)),
        !has_key(without(s, k), k),
        forall|other: K| other != k ==> #[trigger] lookup(without(s, k), other) == lookup(s, other),
        forall|other: K| #[trigger] has_key(without(s, k), other) <==> (other != k && has_key(s, other)),
        without(s, k).len() == if has_key(s, k) {
            s.len() - 1
        } else {
            s.len() as int
        },
{
    let t = without(s, k);
    if has_key(s, k) {
        let p = position(s, k);
        assert forall|i: int| 0 <= i < t.len() implies t[i] == s[if i < p {
            i
        } else {
            i + 1
        }] by {}
        assert forall|other: K| other != k implies #[trigger] lookup(t, other) == lookup(s, other) by {
            if has_key(s, other) {
                let i = position(s, other);
                let j = if i < p {
                    i
                } else {
                    i - 1
                };
                assert(t[j] == s[i]);
                entry_is_found(t, j);
            }
            if has_key(t, other) {
                let j = position(t, other);
                let i = if j < p {
                    j
                } else {
                    j + 1
                };
                assert(t[j] == s[i]);
                entry_is_found(s, i);
            }
        }
        assert forall|other: K| #[trigger] has_key(t, other) <==> (other != k && has_key(s, other)) by {
            if other != k {
                assert(lookup(t, other) == lookup(s, other));
            } else if has_key(t, other) {
                let j = position(t, other);
                assert(t[j] == s[if j < p {
                    j
                } else {
                    j + 1
                }]);
            }
        }
    }
}

/// Where an entry of a filtered sequence stood, and that order is kept.
proof fn filter_last<A>(s: Seq<A>, keep: spec_fn(A) -> bool)
    requires
        s.len() > 0,
    ensures
        s.filter(keep) == if keep(s.last()) {
            s.drop_last().filter(keep).push(s.last())
        } else {
            s.drop_last().filter(keep)
        },
{
    reveal(Seq::filter);
}

/// Pushing an element that passes the filter pushes it on the filtered
/// sequence; pushing another leaves that as it was.
pub proof fn filter_push<A>(s: Seq<A>, keep: spec_fn(A) -> bool, a: A)
    ensures
        s.push(a).filter(keep) == if keep(a) {
            s.filter(keep).push(a)
        } else {
            s.filter(keep)
        },
{
    filter_last(s.push(a), keep);
    assert(s.push(a).drop_last() =~= s);
}

/// Where the elements that pass a filter stand in the whole sequence.
pub proof fn filter_origin<A>(s: Seq<A>, keep: spec_fn(A) -> bool) -> (at: Seq<int>)
    ensures
        at.len() == s.filter(keep).len(),
        forall|i: int|
            0 <= i < at.len() ==> 0 <= #[trigger] at[i] < s.len() && keep(s[at[i]]) && s.filter(
                keep,
            )[i] == s[at[i]],
        forall|i: int, j: int| 0 <= i < j < at.len() ==> #[trigger] at[i] < #[trigger] at[j],
        forall|k: int| 0 <= k < s.len() && keep(#[trigger] s[k]) ==> at.contains(k),
    decreases s.len(),
{
    if s.len() == 0 {
        reveal(Seq::filter);
        Seq::empty()
    } else {
        let init = s.drop_last();
        let n = init.len() as int;
        let before = filter_origin(init, keep);
        filter_last(s, keep);
        let at = if keep(s.last()) {
            before.push(n)
        } else {
            before
        };
        assert forall|k: int| 0 <= k < s.len() && keep(#[trigger] s[k]) implies at.contains(k) by {
            if k < n {
                assert(init[k] == s[k]);
                assert(before.contains(k));
                let i = choose|i: int| 0 <= i < before.len() && before[i] == k;
                assert(at[i] == k);
            } else {
                assert(at[at.len() - 1] == k);
            }
        }
        at
    }
}

/// Filtering keeps keys unique, and finds exactly the entries that passed.
pub proof fn filter_then_lookup<K, V>(s: Seq<(K, V)>, keep: spec_fn((K, V)) -> bool)
    requires
        unique_keys(s),
    ensures
        unique_keys(s.filter(keep)),
        s.filter(keep).len() <= s.len(),
        forall|k: K|
            #[trigger] lookup(s.filter(keep), k) == if has_key(s, k) && keep((k, lookup(s, k)->0)) {
                lookup(s, k)
            } else {
                None
            },
        forall|k: K| #[trigger]
            has_key(s.filter(keep), k) <==> has_key(s, k) && keep((k, lookup(s, k)->0)),
    decreases s.len(),
{
    let t = s.filter(keep);
    if s.len() == 0 {
        reveal(Seq::filter);
        assert(t =~= s);
        return ;
    }
    let init = s.drop_last();
    let last = s.last();
    filter_then_lookup(init, keep);
    filter_last(s, keep);
    assert(s =~= init.push(last));
    assert(!has_key(init, last.0)) by {
        if has_key(init, last.0) {
            let i = position(init, last.0);
            assert(s[i].0 == s[s.len() - 1].0);
        }
    }
    put_then_lookup(init, last.0, last.1);
    assert(put(init, last.0, last.1) == s);
    assert(!has_key(init.filter(keep), last.0));
    put_then_lookup(init.filter(keep), last.0, last.1);
    assert forall|k: K| #[trigger]
        has_key(t, k) <==> has_key(s, k) && keep((k, lookup(s, k)->0)) by {
        if k != last.0 {
            assert(lookup(s, k) == lookup(init, k));
            assert(has_key(s, k) == has_key(init, k));
            assert(has_key(init.filter(keep), k) <==> has_key(init, k) && keep((k, lookup(init, k)->0)));
        }
    }
    assert forall|k: K|
        #[trigger] lookup(t, k) == if has_key(s, k) && keep((k, lookup(s, k)->0)) {
            lookup(s, k)
        } else {
            None
        } by {
        assert(has_key(t, k) <==> has_key(s, k) && keep((k, lookup(s, k)->0)));
        if k != last.0 {
            assert(lookup(s, k) == lookup(init, k));
            assert(lookup(init.filter(keep), k) == lookup(t, k));
        }
    }
}

/// A map from text ids to values.
pub struct IdMap<V> {
    ids: Vec<String>,
    values: Vec<V>,
}

impl<V: View> View for IdMap<V> {
    type V = Seq<(Seq<char>, V::V)>;

    closed spec fn view(&self) -> Seq<(Seq<char>, V::V)> {
        Seq::new(self.ids@.len(), |i: int| (self.ids@[i]@, self.values@[i]@))
    }
}

impl<V> IdMap<V> {
    #[verifier::type_invariant]
    spec fn ids_are_unique(&self) -> bool {
        &&& self.ids@.len() == self.values@.len()
        &&& forall|i: int, j: int|
            0 <= i < j < self.ids@.len() ==> self.ids@[i]@ != self.ids@[j]@
    }
}

impl<V: View> IdMap<V> {
    pub fn new() -> (res: Self)
        ensures
            res@ == Seq::<(Seq<char>, V::V)>::empty(),
    {
        let res = IdMap { ids: Vec::new(), values: Vec::new() };
        assert(res@ =~= Seq::<(Seq<char>, V::V)>::empty());
        res
    }

    /// The index of the entry with the key `key`.
    fn find(&self, key: &str) -> (res: Option<usize>)
        ensures
            match res {
                Some(i) => has_key(self@, key@) && i < self@.len() && i == position(self@, key@),
                None => !has_key(self@, key@),
            },
    {
        proof {
            use_type_invariant(self);
        }
        let mut i: usize = 0;
        while i < self.ids.len()
            invariant
                i <= self.ids@.len(),
                forall|j: int| 0 <= j < i ==> self@[j].0 != key@,
            decreases self.ids@.len() - i,
        {
            if str_eq(self.ids[i].as_str(), key) {
                proof {
                    use_type_invariant(self);
                    assert(self@[i as int].0 == key@);
                    entry_is_found(self@, i as int);
                }
                return Some(i);
            }
            i = i + 1;
        }
        None
    }

    pub fn len(&self) -> (res: usize)
        ensures
            res == self@.len(),
            unique_keys(self@),
    {
        proof {
            use_type_invariant(self);
        }
        self.ids.len()
    }

    pub fn is_empty(&self) -> (res: bool)
        ensures
            res == (self@.len() == 0),
            unique_keys(self@),
    {
        self.len() == 0
    }

    pub fn contains_key(&self, key: &str) -> (res: bool)
        ensures
            res == has_key(self@, key@),
            unique_keys(self@),
    {
        proof {
            use_type_invariant(self);
        }
        self.find(key).is_some()
    }

    pub fn get(&self, key: &str) -> (res: Option<&V>)
        ensures
            match res {
                Some(v) => has_key(self@, key@) && lookup(self@, key@) == Some(v@),
                None => !has_key(self@, key@) && lookup(self@, key@) is None,
            },
            unique_keys(self@),
    {
        proof {
            use_type_invariant(self);
        }
        match self.find(key) {
            Some(i) => Some(&self.values[i]),
            None => None,
        }
    }

    pub fn get_mut(&mut self, key: &str) -> (res: Option<&mut V>)
        ensures
            match res {
                Some(v) => has_key(old(self)@, key@) && lookup(old(self)@, key@) == Some(v@)
                    && final(self)@ == put(old(self)@, key@, final(v)@),
                None => !has_key(old(self)@, key@) && final(self)@ == old(self)@,
            },
            unique_keys(old(self)@),
    {
        proof {
            use_type_invariant(&*self);
        }
        match self.find(key) {
            Some(i) => Some(&mut self.values[i]),
            None => None,
        }
    }

    /// The key of the entry at `index`.
    pub fn key_at(&self, index: usize) -> (res: &String)
        requires
            index < self@.len(),
        ensures
            res@ == self@[index as int].0,
    {
        &self.ids[index]
    }

    /// The value of the entry at `index`.
    pub fn value_at(&self, index: usize) -> (res: &V)
        requires
            index < self@.len(),
        ensures
            res@ == self@[index as int].1,
    {
        proof {
            use_type_invariant(self);
        }
        &self.values[index]
    }

    /// The value of the entry at `index`, to be changed in place.
    pub fn value_at_mut(&mut self, index: usize) -> (res: &mut V)
        requires
            index < old(self)@.len(),
        ensures
            res@ == old(self)@[index as int].1,
            final(self)@ == old(self)@.update(
                index as int,
                (old(self)@[index as int].0, final(res)@),
            ),
    {
        proof {
            use_type_invariant(&*self);
        }
        &mut self.values[index]
    }

    /// Stores `value` under `key`, returning the value it replaced.
    pub fn insert(&mut self, key: String, value: V) -> (res: Option<V>)
        ensures
            final(self)@ == put(old(self)@, key@, value@),
            match res {
                Some(v) => lookup(old(self)@, key@) == Some(v@),
                None => lookup(old(self)@, key@) is None,
            },
            unique_keys(old(self)@),
            unique_keys(final(self)@),
    {
        proof {
            use_type_invariant(&*self);
            put_then_lookup(self@, key@, value@);
        }
        match self.find(key.as_str()) {
            Some(i) => {
                let mut swapped = value;
                std::mem::swap(&mut swapped, &mut self.values[i]);
                assert(self@ =~= put(old(self)@, key@, value@));
                Some(swapped)
            },
            None => {
                assert forall|i: int| 0 <= i < self.ids@.len() implies self.ids@[i]@ != key@ by {
                    assert(self@[i].0 == self.ids@[i]@);
                }
                let mut taken = IdMap::new();
                std::mem::swap(&mut taken, self);
                let IdMap { mut ids, mut values } = taken;
                ids.push(key);
                values.push(value);
                *self = IdMap { ids, values };
                assert(self@ =~= put(old(self)@, key@, value@));
                None
            },
        }
    }

    /// Removes the entry at `index`.
    pub fn remove_at(&mut self, index: usize) -> (res: (String, V))
        requires
            index < old(self)@.len(),
        ensures
            (res.0@, res.1@) == old(self)@[index as int],
            final(self)@ == old(self)@.remove(index as int),
    {
        proof {
            use_type_invariant(&*self);
        }
        let mut taken = IdMap::new();
        std::mem::swap(&mut taken, self);
        let IdMap { mut ids, mut values } = taken;
        let id = ids.remove(index);
        let value = values.remove(index);
        *self = IdMap { ids, values };
        assert(self@ =~= old(self)@.remove(index as int));
        (id, value)
    }

    /// Removes the entry stored under `key`, returning its value.
    pub fn remove(&mut self, key: &str) -> (res: Option<V>)
        ensures
            final(self)@ == without(old(self)@, key@),
            match res {
                Some(v) => lookup(old(self)@, key@) == Some(v@),
                None => lookup(old(self)@, key@) is None,
            },
            unique_keys(old(self)@),
            unique_keys(final(self)@),
    {
        proof {
            use_type_invariant(&*self);
            without_then_lookup(self@, key@);
        }
        match self.find(key) {
            Some(i) => Some(self.remove_at(i).1),
            None => None,
        }
    }

    /// Removes every entry.
    pub fn clear(&mut self)
        ensures
            final(self)@ == Seq::<(Seq<char>, V::V)>::empty(),
    {
        *self = IdMap::new();
    }

    /// Keeps the entries that `keep` accepts, in their order. `accepted` is
    /// what `keep` computes.
    pub(crate) fn retain<F: Fn(&String, &V) -> bool>(
        &mut self,
        keep: F,
        Ghost(accepted): Ghost<spec_fn((Seq<char>, V::V)) -> bool>,
    )
        requires
            forall|k: &String, v: &V| #[trigger] keep.requires((k, v)),
            forall|k: &String, v: &V, b: bool| #[trigger]
                keep.ensures((k, v), b) ==> b == accepted((k@, v@)),
        ensures
            final(self)@ == old(self)@.filter(accepted),
            unique_keys(old(self)@),
            unique_keys(final(self)@),
    {
        proof {
            use_type_invariant(&*self);
            filter_then_lookup(self@, accepted);
        }
        let ghost all = self@;
        let mut i: usize = 0;
        let ghost mut seen: int = 0;
        assert(all.take(0).filter(accepted) =~= self@.take(0)) by {
            reveal(Seq::filter);
        }
        assert(all.skip(0) =~= self@.skip(0));
        while i < self.len()
            invariant
                0 <= i <= self@.len(),
                0 <= seen <= all.len(),
                self@.take(i as int) == all.take(seen).filter(accepted),
                self@.skip(i as int) == all.skip(seen),
                forall|k: &String, v: &V| #[trigger] keep.requires((k, v)),
                forall|k: &String, v: &V, b: bool| #[trigger]
                    keep.ensures((k, v), b) ==> b == accepted((k@, v@)),
            decreases self@.len() - i,
        {
            let ghost before = self@;
            let kept = keep(self.key_at(i), self.value_at(i));
            proof {
                assert(before.skip(i as int).len() == all.skip(seen).len());
                assert(before.skip(i as int)[0] == before[i as int]);
                assert(all.skip(seen)[0] == all[seen]);
                assert(before[i as int] == all[seen]);
                assert(kept == accepted(all[seen]));
                assert(all.take(seen + 1) =~= all.take(seen).push(all[seen]));
                filter_push(all.take(seen), accepted, all[seen]);
                seen = seen + 1;
            }
            if kept {
                i = i + 1;
                assert(self@.take(i as int) =~= before.take(i - 1).push(before[i - 1]));
                assert(self@.skip(i as int) =~= before.skip(i - 1).skip(1));
            } else {
                self.remove_at(i);
                assert(self@.take(i as int) =~= before.take(i as int));
                assert(self@.skip(i as int) =~= before.skip(i as int).skip(1));
            }
            assert(all.skip(seen) =~= all.skip(seen - 1).skip(1));
        }
        proof {
            assert(self@.skip(i as int).len() == 0);
            assert(all.take(seen) =~= all);
            assert(self@.take(i as int) =~= self@);
        }
    }
}

} // verus!
