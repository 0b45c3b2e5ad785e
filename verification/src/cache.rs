use vstd::prelude::*;
use std::collections::HashMap;
use std::hash::Hash;
use std::sync::Arc;
use vstd::std_specs::hash::obeys_key_model;

verus! {

broadcast use vstd::std_specs::hash::group_hash_axioms;

/// A memo table: the value of a key is computed the first time it is asked
/// for, and later requests get the stored value.
pub struct Cache<K, V> {
    map: HashMap<K, V>,
}

impl<K, V> View for Cache<K, V> {
    type V = Map<K, V>;

    closed spec fn view(&self) -> Map<K, V> {
        self.map@
    }
}

impl<K: Clone + Eq + Hash, V: Clone> Cache<K, V> {
    pub fn new() -> (r: Self)
        ensures
            r@ == Map::<K, V>::empty(),
    {
        Cache { map: HashMap::new() }
    }

    /// The value of `k`: computed with `f` and stored when `k` is new, read from
    /// the table otherwise (then `f` is not called).
    pub fn get<F: FnOnce(&K) -> V>(&mut self, k: K, f: F) -> (r: Arc<V>)
        requires
            obeys_key_model::<K>(),
            !old(self)@.contains_key(k) ==> f.requires((&k,)),
        ensures
            old(self)@.contains_key(k) ==> final(self)@ == old(self)@ && cloned::<V>(old(self)@[k], *r),
            !old(self)@.contains_key(k) ==> final(self)@.contains_key(k)
                && final(self)@ == old(self)@.insert(k, final(self)@[k])
                && f.ensures((&k,), final(self)@[k])
                && cloned::<V>(final(self)@[k], *r),
    {
        match self.map.get(&k) {
            Some(v) => Arc::new(v.clone()),
            None => {
                let v = f(&k);
                let r = v.clone();
                self.map.insert(k, v);
                Arc::new(r)
            },
        }
    }
}

} // verus!
