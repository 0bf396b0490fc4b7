//! The in-memory index of the database: for every live key, the position of
//! the log record that holds its value.
//!
//! Besides the map, the index keeps the list of its keys, so that a copy of
//! the whole index can be taken for a compaction.
use crate::logfile::FilePos;
use crate::replay::{replay_writes, Write};
use crate::serial::{KvOpe, KvOpeE, OpeView};
use vstd::hash_map::StringHashMap;
use vstd::prelude::*;

verus! {

/// A map from keys to record positions of type `P`.
#[verifier::reject_recursive_types(P)]
pub struct KVStore<P> {
    /// Each key's position and the index of the key in `keys`.
    map: StringHashMap<(P, usize)>,
    keys: Vec<String>,
}

impl<P> View for KVStore<P> {
    type V = Map<Seq<char>, P>;

    closed spec fn view(&self) -> Map<Seq<char>, P> {
        self.map@.map_values(|e: (P, usize)| e.0)
    }
}

/// The write that the record `op` at offset `off` of file `fid` makes to the
/// index: a set points the key at the record, a delete removes the key.
pub open spec fn index_write(fid: u64, off: u64, op: OpeView) -> Write<FilePos> {
    match op {
        OpeView::Put { k, .. } => (k, Some(FilePos { file_id: fid, pos: off })),
        OpeView::Remove { k } => (k, None),
    }
}

/// The writes that the records `entries` (each with its offset) of file `fid`
/// make to the index.
pub open spec fn index_writes(fid: u64, entries: Seq<(u64, KvOpe)>) -> Seq<Write<FilePos>> {
    entries.map_values(|e: (u64, KvOpe)| index_write(fid, e.0, e.1@))
}

impl<P: Copy> KVStore<P> {
    /// The map and the key list agree: each listed key is in the map with
    /// its own list index, and each key of the map is listed there.
    pub closed spec fn wf(&self) -> bool {
        &&& forall|i: int|
            0 <= i < self.keys@.len() ==> #[trigger] self.map@.contains_key(self.keys@[i]@)
                && self.map@[self.keys@[i]@].1 == i
        &&& forall|k: Seq<char>|
            #[trigger] self.map@.contains_key(k) ==> self.map@[k].1 < self.keys@.len()
                && self.keys@[self.map@[k].1 as int]@ == k
    }

    /// An empty index.
    pub fn create() -> (s: KVStore<P>)
        ensures
            s.wf(),
            s@ == Map::<Seq<char>, P>::empty(),
    {
        let s = KVStore { map: StringHashMap::new(), keys: Vec::new() };
        assert(s@ =~= Map::<Seq<char>, P>::empty());
        s
    }

    /// Points `k` at `v`.
    pub fn set(&mut self, k: String, v: &P)
        requires
            old(self).wf(),
        ensures
            final(self).wf(),
            final(self)@ == old(self)@.insert(k@, *v),
    {
        let len = self.keys.len();
        match self.map.get(k.as_str()) {
            Some(e) => {
                let idx = e.1;
                self.map.insert(k, (*v, idx));
                assert forall|i: int| 0 <= i < self.keys@.len() implies #[trigger] self.map@.contains_key(self.keys@[i]@)
                    && self.map@[self.keys@[i]@].1 == i by {
                    assert(old(self).map@.contains_key(old(self).keys@[i]@));
                }
            },
            None => {
                let kc = k.clone();
                self.keys.push(kc);
                self.map.insert(k, (*v, len));
                assert forall|i: int| 0 <= i < self.keys@.len() implies #[trigger] self.map@.contains_key(self.keys@[i]@)
                    && self.map@[self.keys@[i]@].1 == i by {
                    if i < len {
                        assert(old(self).map@.contains_key(old(self).keys@[i]@));
                    }
                }
                assert forall|k2: Seq<char>| #[trigger] self.map@.contains_key(k2) implies self.map@[k2].1 < self.keys@.len()
                    && self.keys@[self.map@[k2].1 as int]@ == k2 by {
                    if k2 != k@ {
                        assert(old(self).map@.contains_key(k2));
                    }
                }
            },
        }
        assert(self@ =~= old(self)@.insert(k@, *v));
    }

    /// The position of `k`, if it is in the index.
    pub fn get(&self, k: &String) -> (r: Option<&P>)
        ensures
            match r {
                Some(p) => self@.contains_key(k@) && *p == self@[k@],
                None => !self@.contains_key(k@),
            },
    {
        match self.map.get(k.as_str()) {
            Some(e) => Some(&e.0),
            None => None,
        }
    }

    /// Removes `k` and returns the position it had, if any.
    pub fn del(&mut self, k: &String) -> (r: Option<P>)
        requires
            old(self).wf(),
        ensures
            final(self).wf(),
            final(self)@ == old(self)@.remove(k@),
            match r {
                Some(p) => old(self)@.contains_key(k@) && p == old(self)@[k@],
                None => !old(self)@.contains_key(k@),
            },
    {
        match self.map.get(k.as_str()) {
            None => {
                assert(self@ =~= old(self)@.remove(k@));
                None
            },
            Some(e) => {
                let (pos, idx) = *e;
                self.map.remove(k.as_str());
                let last = self.keys.len() - 1;
                let ghost keys0 = self.keys@;
                let _removed = self.keys.swap_remove(idx);
                if idx < last {
                    let e2 = *self.map.get(self.keys[idx].as_str()).unwrap();
                    let moved = self.keys[idx].clone();
                    self.map.insert(moved, (e2.0, idx));
                }
                assert forall|i: int| 0 <= i < self.keys@.len() implies #[trigger] self.map@.contains_key(self.keys@[i]@)
                    && self.map@[self.keys@[i]@].1 == i by {
                    if i != idx {
                        assert(self.keys@[i] == keys0[i]);
                        assert(old(self).map@.contains_key(keys0[i]@));
                        assert(keys0[i]@ != k@);
                    }
                }
                assert forall|k2: Seq<char>| #[trigger] self.map@.contains_key(k2) implies self.map@[k2].1 < self.keys@.len()
                    && self.keys@[self.map@[k2].1 as int]@ == k2 by {
                    assert(old(self).map@.contains_key(k2));
                    let j = old(self).map@[k2].1 as int;
                    if j == last {
                        assert(self.keys@[idx as int] == keys0[last as int]);
                    } else {
                        assert(j != idx);
                        assert(self.keys@[j] == keys0[j]);
                    }
                }
                assert(self@ =~= old(self)@.remove(k@)) by {
                    assert forall|k2: Seq<char>| self@.contains_key(k2) <==> old(self)@.remove(k@).contains_key(k2) by {}
                    assert forall|k2: Seq<char>| #[trigger] self@.contains_key(k2) implies self@[k2] == old(self)@.remove(k@)[k2] by {
                        assert(old(self).map@.contains_key(k2));
                    }
                }
                Some(pos)
            },
        }
    }

    /// Removes some key and returns it with its position; `None` when the
    /// index is empty.
    pub fn pop_any(&mut self) -> (r: Option<(String, P)>)
        requires
            old(self).wf(),
        ensures
            final(self).wf(),
            match r {
                Some((k, p)) => old(self)@.contains_key(k@) && old(self)@[k@] == p && final(self)@ == old(self)@.remove(k@),
                None => old(self)@ == Map::<Seq<char>, P>::empty() && final(self)@ == old(self)@,
            },
    {
        let n = self.keys.len();
        if n == 0 {
            assert(self@ =~= Map::<Seq<char>, P>::empty()) by {
                assert forall|k: Seq<char>| !#[trigger] self.map@.contains_key(k) by {
                    if self.map@.contains_key(k) {
                        assert(self.map@[k].1 < self.keys@.len());
                    }
                }
            }
            return None;
        }
        let k = self.keys[n - 1].clone();
        assert(self.map@.contains_key(self.keys@[n - 1]@));
        let p = self.map.get(k.as_str()).unwrap().0;
        self.del(&k);
        Some((k, p))
    }

    /// A copy of the whole index, as pairs of key and position, each key once.
    pub fn snapshot(&self) -> (r: Vec<(String, P)>)
        requires
            self.wf(),
        ensures
            r@.len() == self@.dom().len(),
            forall|i: int| 0 <= i < r@.len() ==> #[trigger] self@.contains_key(r@[i].0@) && self@[r@[i].0@] == r@[i].1,
            forall|i: int, j: int| 0 <= i < j < r@.len() ==> r@[i].0@ != r@[j].0@,
            forall|k: Seq<char>| #[trigger] self@.contains_key(k) ==> exists|i: int| 0 <= i < r@.len() && r@[i].0@ == k,
    {
        let mut r: Vec<(String, P)> = Vec::new();
        let mut i: usize = 0;
        while i < self.keys.len()
            invariant
                self.wf(),
                i <= self.keys@.len(),
                r@.len() == i,
                forall|j: int| 0 <= j < i ==> #[trigger] r@[j].0@ == self.keys@[j]@ && self@[r@[j].0@] == r@[j].1,
            decreases self.keys@.len() - i,
        {
            let e = *self.map.get(self.keys[i].as_str()).unwrap();
            r.push((self.keys[i].clone(), e.0));
            i = i + 1;
        }
        proof {
            assert forall|j: int| 0 <= j < r@.len() implies #[trigger] self@.contains_key(r@[j].0@) && self@[r@[j].0@] == r@[j].1 by {
                assert(self.map@.contains_key(self.keys@[j]@));
            }
            assert forall|a: int, b: int| 0 <= a < b < r@.len() implies r@[a].0@ != r@[b].0@ by {
                assert(self.map@.contains_key(self.keys@[a]@));
                assert(self.map@.contains_key(self.keys@[b]@));
            }
            assert forall|k: Seq<char>| #[trigger] self@.contains_key(k) implies exists|j: int| 0 <= j < r@.len() && r@[j].0@ == k by {
                let j = self.map@[k].1 as int;
                assert(r@[j].0@ == k);
            }
            let ks = r@.map_values(|e: (String, P)| e.0@);
            assert(ks.no_duplicates()) by {
                assert forall|a: int, b: int| 0 <= a < ks.len() && 0 <= b < ks.len() && a != b implies ks[a] != ks[b] by {
                    if a < b {
                        assert(self.map@.contains_key(self.keys@[a]@));
                        assert(self.map@.contains_key(self.keys@[b]@));
                    } else {
                        assert(self.map@.contains_key(self.keys@[a]@));
                        assert(self.map@.contains_key(self.keys@[b]@));
                    }
                }
            }
            assert(ks.to_set() =~= self@.dom()) by {
                assert forall|k: Seq<char>| ks.to_set().contains(k) implies self@.dom().contains(k) by {
                    let j = choose|j: int| 0 <= j < ks.len() && ks[j] == k;
                    assert(self.map@.contains_key(self.keys@[j]@));
                }
                assert forall|k: Seq<char>| self@.dom().contains(k) implies ks.to_set().contains(k) by {
                    let j = self.map@[k].1 as int;
                    assert(ks[j] == k);
                }
            }
            ks.unique_seq_to_set();
        }
        r
    }
}

/// Applies one record, found at offset `off` of file `fid`, to the index: a
/// set points the key at the record, a delete removes the key.
pub fn readlog_entry(store: &mut KVStore<FilePos>, fid: u64, off: u64, ope: &KvOpe)
    requires
        old(store).wf(),
    ensures
        final(store).wf(),
        final(store)@ == crate::replay::apply_write(old(store)@, index_write(fid, off, ope@)),
{
    match &ope.ope {
        KvOpeE::KvOpeSet { k, v: _ } => {
            store.set(k.clone(), &FilePos { file_id: fid, pos: off });
        },
        KvOpeE::KvOpeDel { k } => {
            store.del(k);
        },
    }
}

/// Applies the records of log file `fid`, each with its offset, in order.
pub fn file_readlogs(store: &mut KVStore<FilePos>, fid: u64, entries: &Vec<(u64, KvOpe)>)
    requires
        old(store).wf(),
    ensures
        final(store).wf(),
        final(store)@ == replay_writes(old(store)@, index_writes(fid, entries@)),
        forall|i: int|
            0 <= i < entries@.len() && (forall|j: int| i < j < entries@.len() ==> #[trigger] entries@[j].1@.key() != entries@[i].1@.key())
                ==> match #[trigger] entries@[i].1@ {
                OpeView::Put { k, .. } => final(store)@.contains_key(k)
                    && final(store)@[k] == (FilePos { file_id: fid, pos: entries@[i].0 }),
                OpeView::Remove { k } => !final(store)@.contains_key(k),
            },
        forall|k: Seq<char>|
            #![trigger final(store)@.contains_key(k)]
            #![trigger old(store)@.contains_key(k)]
            (forall|i: int| 0 <= i < entries@.len() ==> #[trigger] entries@[i].1@.key() != k) ==> (
                final(store)@.contains_key(k) == old(store)@.contains_key(k)
                && (old(store)@.contains_key(k) ==> final(store)@[k] == old(store)@[k])),
{
    let mut i: usize = 0;
    while i < entries.len()
        invariant
            store.wf(),
            i <= entries@.len(),
            store@ == replay_writes(old(store)@, index_writes(fid, entries@.take(i as int))),
        decreases entries@.len() - i,
    {
        let (off, ope) = (entries[i].0, &entries[i].1);
        readlog_entry(store, fid, off, ope);
        assert(index_writes(fid, entries@.take(i + 1)).drop_last() =~= index_writes(fid, entries@.take(i as int)));
        i = i + 1;
    }
    assert(entries@.take(i as int) =~= entries@);
    proof {
        let m = old(store)@;
        let ws = index_writes(fid, entries@);
        assert(ws.len() == entries@.len());
        assert forall|i: int| 0 <= i < entries@.len() implies #[trigger] ws[i].0 == entries@[i].1@.key() && ws[i].1 == (
        match entries@[i].1@ {
            OpeView::Put { .. } => Some(FilePos { file_id: fid, pos: entries@[i].0 }),
            OpeView::Remove { .. } => None,
        }) by {}
        assert forall|i: int|
            0 <= i < entries@.len() && (forall|j: int| i < j < entries@.len() ==> #[trigger] entries@[j].1@.key() != entries@[i].1@.key())
                implies match #[trigger] entries@[i].1@ {
                OpeView::Put { k, .. } => replay_writes(m, ws).contains_key(k) && replay_writes(m, ws)[k] == (FilePos { file_id: fid, pos: entries@[i].0 }),
                OpeView::Remove { k } => !replay_writes(m, ws).contains_key(k),
            } by {
            let k = entries@[i].1@.key();
            crate::replay::lemma_replay_last(m, ws, k);
            assert(ws[i].0 == k);
            assert forall|j: int| i < j < ws.len() implies ws[j].0 != k by {
                assert(ws[j].0 == entries@[j].1@.key());
            }
        }
        assert forall|k: Seq<char>|
            #![trigger replay_writes(m, ws).contains_key(k)]
            #![trigger m.contains_key(k)]
            (forall|i: int| 0 <= i < entries@.len() ==> #[trigger] entries@[i].1@.key() != k) implies (
                replay_writes(m, ws).contains_key(k) == m.contains_key(k)
                && (m.contains_key(k) ==> replay_writes(m, ws)[k] == m[k])) by {
            crate::replay::lemma_replay_last(m, ws, k);
            assert forall|i: int| 0 <= i < ws.len() implies #[trigger] ws[i].0 != k by {
                assert(entries@[i].1@.key() != k);
            }
        }
    }
}

} // verus!
