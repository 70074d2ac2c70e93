//! A directory: values filed under names.

use vstd::hash_map::StringHashMap;
use vstd::prelude::*;

verus! {

/// Values filed under names, each name at most once.
#[verifier::reject_recursive_types(V)]
pub struct Directory<V> {
    map: StringHashMap<V>,
}

impl<V> View for Directory<V> {
    type V = Map<Seq<char>, V>;

    closed spec fn view(&self) -> Map<Seq<char>, V> {
        self.map@
    }
}

impl<V> Directory<V> {
    /// An empty directory.
    pub fn new() -> (d: Directory<V>)
        ensures
            d@ == Map::<Seq<char>, V>::empty(),
    {
        Directory { map: StringHashMap::new() }
    }

    /// The value filed under a name.
    pub fn get(&self, name: &str) -> (v: Option<&V>)
        ensures
            match v {
                Some(v) => self@.contains_key(name@) && *v == self@[name@],
                None => !self@.contains_key(name@),
            },
    {
        self.map.get(name)
    }

    /// File a value under a name, in place of any that is there.
    pub fn insert(&mut self, name: String, value: V)
        ensures
            final(self)@ == old(self)@.insert(name@, value),
    {
        self.map.insert(name, value);
    }

    /// Remove what is filed under a name.
    pub fn remove(&mut self, name: &str)
        ensures
            final(self)@ == old(self)@.remove(name@),
    {
        self.map.remove(name);
    }
}

} // verus!
