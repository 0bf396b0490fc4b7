//! The store of the single-process database: strings to strings, updated by
//! logged operations.
use crate::replay::{apply_write, Write};
use crate::serial::{KvOpe, KvOpeE, OpeView};
use vstd::hash_map::StringHashMap;
use vstd::prelude::*;

verus! {

/// The write that an operation makes.
pub open spec fn write_of(op: OpeView) -> Write<Seq<char>> {
    match op {
        OpeView::Put { k, v } => (k, Some(v)),
        OpeView::Remove { k } => (k, None),
    }
}

/// A map from keys to values, both strings.
pub struct KVStore {
    map: StringHashMap<String>,
}

impl View for KVStore {
    type V = Map<Seq<char>, Seq<char>>;

    closed spec fn view(&self) -> Map<Seq<char>, Seq<char>> {
        self.map@.map_values(|v: String| v@)
    }
}

impl KVStore {
    /// An empty store.
    pub fn create() -> (s: KVStore)
        ensures
            s@ == Map::<Seq<char>, Seq<char>>::empty(),
    {
        let s = KVStore { map: StringHashMap::new() };
        assert(s@ =~= Map::<Seq<char>, Seq<char>>::empty());
        s
    }

    /// Carries out a logged operation.
    pub fn do_ope(&mut self, ope: &KvOpe)
        ensures
            final(self)@ == apply_write(old(self)@, write_of(ope@)),
    {
        match &ope.ope {
            KvOpeE::KvOpeSet { k, v } => {
                self.set(k.clone(), v.clone());
            },
            KvOpeE::KvOpeDel { k } => {
                self.del(k.clone());
            },
        }
    }

    /// Maps `k` to `v`, replacing any earlier value of `k`.
    pub fn set(&mut self, k: String, v: String)
        ensures
            final(self)@ == old(self)@.insert(k@, v@),
    {
        self.map.insert(k, v);
        assert(self@ =~= old(self)@.insert(k@, v@));
    }

    /// The value of `k`, if it has one.
    pub fn get(&self, k: String) -> (r: Option<&String>)
        ensures
            match r {
                Some(v) => self@.contains_key(k@) && v@ == self@[k@],
                None => !self@.contains_key(k@),
            },
    {
        self.map.get(k.as_str())
    }

    /// Removes `k` and returns the value it had, if any.
    pub fn del(&mut self, k: String) -> (r: Option<String>)
        ensures
            final(self)@ == old(self)@.remove(k@),
            match r {
                Some(v) => old(self)@.contains_key(k@) && v@ == old(self)@[k@],
                None => !old(self)@.contains_key(k@),
            },
    {
        let r = match self.map.get(k.as_str()) {
            Some(v) => Some(v.clone()),
            None => None,
        };
        self.map.remove(k.as_str());
        assert(self@ =~= old(self)@.remove(k@));
        r
    }
}

} // verus!
