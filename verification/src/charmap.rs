use vstd::prelude::*;
use std::collections::HashMap;

verus! {

/// A map keyed by chars, held in a std `HashMap` keyed by each char's
/// scalar value.
pub struct CharMap<V> {
    map: HashMap<u32, V>,
}

impl<V> CharMap<V> {
    /// The map this value stands for.
    pub closed spec fn view(&self) -> Map<char, V> {
        Map::new(|c: char| self.map@.contains_key(c as u32), |c: char| self.map@[c as u32])
    }

    /// An empty map.
    pub fn new() -> (m: Self)
        ensures
            m.view() == Map::<char, V>::empty(),
    {
        let m = CharMap { map: HashMap::new() };
        assert(m.view() =~= Map::<char, V>::empty());
        m
    }

    /// Whether `key` has a value.
    pub fn contains(&self, key: char) -> (b: bool)
        ensures
            b == self.view().contains_key(key),
    {
        broadcast use vstd::std_specs::hash::group_hash_axioms;

        self.map.contains_key(&(key as u32))
    }

    /// The value of `key`, if it has one.
    pub fn get(&self, key: char) -> (r: Option<&V>)
        ensures
            match r {
                Some(v) => self.view().contains_key(key) && self.view()[key] == *v,
                None => !self.view().contains_key(key),
            },
    {
        broadcast use vstd::std_specs::hash::group_hash_axioms;

        self.map.get(&(key as u32))
    }

    /// Gives `key` the value `value`, in place of any value it had.
    pub fn insert(&mut self, key: char, value: V)
        ensures
            final(self).view() == old(self).view().insert(key, value),
    {
        broadcast use vstd::std_specs::hash::group_hash_axioms;

        self.map.insert(key as u32, value);
        let ghost want = old(self).view().insert(key, value);
        assert forall|c: char| #[trigger] self.view().contains_key(c) == want.contains_key(c) && (
        want.contains_key(c) ==> self.view()[c] == want[c]) by {
            if c != key {
                vstd::utf8::char_u32_cast(c, c as u32);
                vstd::utf8::char_u32_cast(key, key as u32);
            }
        }
        assert(self.view() =~= old(self).view().insert(key, value));
    }
}

} // verus!
