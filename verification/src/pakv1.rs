//! The in-memory key-value store: strings to strings.
use vstd::hash_map::StringHashMap;
use vstd::prelude::*;

verus! {

/// A map from keys to values, both strings.
pub struct KVStore {
    map: StringHashMap<String>,
}

impl View for KVStore {
    type V = Map<Seq<char>, Seq<char>>;

    closed spec fn view(&self) -> Map<Seq<char>, Seq<char>> {
        self.map@.map_values(|v: String| v@)
    }
}

impl KVStore {
    /// An empty store.
    pub fn create() -> (s: KVStore)
        ensures
            s@ == Map::<Seq<char>, Seq<char>>::empty(),
    {
        let s = KVStore { map: StringHashMap::new() };
        assert(s@ =~= Map::<Seq<char>, Seq<char>>::empty());
        s
    }

    /// Maps `k` to `v`, replacing any earlier value of `k`.
    pub fn set(&mut self, k: String, v: String)
        ensures
            final(self)@ == old(self)@.insert(k@, v@),
    {
        self.map.insert(k, v);
        assert(self@ =~= old(self)@.insert(k@, v@));
    }

    /// The value of `k`, if it has one.
    pub fn get(&mut self, k: String) -> (r: Option<&String>)
        ensures
            final(self)@ == old(self)@,
            match r {
                Some(v) => old(self)@.contains_key(k@) && v@ == old(self)@[k@],
                None => !old(self)@.contains_key(k@),
            },
    {
        self.map.get(k.as_str())
    }

    /// Removes `k` and returns the value it had, if any.
    pub fn del(&mut self, k: String) -> (r: Option<String>)
        ensures
            final(self)@ == old(self)@.remove(k@),
            match r {
                Some(v) => old(self)@.contains_key(k@) && v@ == old(self)@[k@],
                None => !old(self)@.contains_key(k@),
            },
    {
        let r = match self.map.get(k.as_str()) {
            Some(v) => Some(v.clone()),
            None => None,
        };
        self.map.remove(k.as_str());
        assert(self@ =~= old(self)@.remove(k@));
        r
    }
}

/// A get after a set of `k` to `v` finds `v`; the set leaves every other
/// key as it was; a get after a delete of `k` finds nothing.
pub proof fn lemma_set_get_del(m: Map<Seq<char>, Seq<char>>, k: Seq<char>, v: Seq<char>, other: Seq<char>)
    requires
        other != k,
    ensures
        m.insert(k, v).contains_key(k) && m.insert(k, v)[k] == v,
        m.insert(k, v).contains_key(other) == m.contains_key(other),
        m.contains_key(other) ==> m.insert(k, v)[other] == m[other],
        !m.remove(k).contains_key(k),
        m.remove(k).contains_key(other) == m.contains_key(other),
        m.contains_key(other) ==> m.remove(k)[other] == m[other],
{
}

} // verus!
