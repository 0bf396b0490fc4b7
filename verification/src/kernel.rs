//! The storage kernel: one log file per database, an in-memory index of the
//! offset of each key's record, and a background compaction that yields to
//! users.
//!
//! File handles, locks, atomics and the compaction thread live with the
//! caller; this module holds the index, the offset bookkeeping of the log
//! file, and the decisions of the compaction.
use crate::index::KVStore;
use crate::replay::{replay_writes, Write};
use crate::serial::{KvOpe, KvOpeE, OpeView};
use vstd::prelude::*;

verus! {

/// The byte offset of a record in the log file.
#[derive(Clone, Copy, Debug, PartialEq, Eq, Structural)]
pub struct FilePos {
    pub offset: u64,
}

/// The index: for every live key, the offset of the record of its value.
pub struct KVIndexStore {
    map: KVStore<FilePos>,
}

impl View for KVIndexStore {
    type V = Map<Seq<char>, FilePos>;

    closed spec fn view(&self) -> Map<Seq<char>, FilePos> {
        self.map@
    }
}

impl KVIndexStore {
    /// The index is well formed.
    pub closed spec fn wf(&self) -> bool {
        self.map.wf()
    }

    /// An empty index.
    pub fn create() -> (s: KVIndexStore)
        ensures
            s.wf(),
            s@ == Map::<Seq<char>, FilePos>::empty(),
    {
        KVIndexStore { map: KVStore::create() }
    }

    /// Points `k` at `v`.
    pub fn set(&mut self, k: String, v: FilePos)
        requires
            old(self).wf(),
        ensures
            final(self).wf(),
            final(self)@ == old(self)@.insert(k@, v),
    {
        self.map.set(k, &v);
    }

    /// The offset of `k`'s record, if `k` is in the index.
    pub fn get(&self, k: &String) -> (r: Option<&FilePos>)
        ensures
            match r {
                Some(p) => self@.contains_key(k@) && *p == self@[k@],
                None => !self@.contains_key(k@),
            },
    {
        self.map.get(k)
    }

    /// Removes `k`; returns the offset it had, if any.
    pub fn del(&mut self, k: &String) -> (r: Option<FilePos>)
        requires
            old(self).wf(),
        ensures
            final(self).wf(),
            final(self)@ == old(self)@.remove(k@),
            match r {
                Some(p) => old(self)@.contains_key(k@) && p == old(self)@[k@],
                None => !old(self)@.contains_key(k@),
            },
    {
        self.map.del(k)
    }

    /// Removes some key and returns it with its offset; `None` when the
    /// index is empty.
    pub fn pop_any(&mut self) -> (r: Option<(String, FilePos)>)
        requires
            old(self).wf(),
        ensures
            final(self).wf(),
            match r {
                Some((k, p)) => old(self)@.contains_key(k@) && old(self)@[k@] == p && final(self)@ == old(self)@.remove(k@),
                None => old(self)@ == Map::<Seq<char>, FilePos>::empty() && final(self)@ == old(self)@,
            },
    {
        self.map.pop_any()
    }

    /// A copy of the index, each key once with its offset.
    pub fn snapshot(&self) -> (r: Vec<(String, FilePos)>)
        requires
            self.wf(),
        ensures
            r@.len() == self@.dom().len(),
            forall|i: int| 0 <= i < r@.len() ==> #[trigger] self@.contains_key(r@[i].0@) && self@[r@[i].0@] == r@[i].1,
            forall|i: int, j: int| 0 <= i < j < r@.len() ==> r@[i].0@ != r@[j].0@,
            forall|k: Seq<char>| #[trigger] self@.contains_key(k) ==> exists|i: int| 0 <= i < r@.len() && r@[i].0@ == k,
    {
        self.map.snapshot()
    }
}

/// The offsets of the log file: where the next append goes and where the
/// next line is read.
#[derive(PartialEq, Eq, Structural)]
pub struct LogOffsets {
    pub r_offset: u64,
    pub w_offset: u64,
}

impl LogOffsets {
    /// A file of `len` bytes, read from the start.
    pub fn new(len: u64) -> (o: LogOffsets)
        ensures
            o.r_offset == 0,
            o.w_offset == len,
    {
        LogOffsets { r_offset: 0, w_offset: len }
    }

    /// Takes in an append of `written` bytes; returns where it starts.
    pub fn appended(&mut self, written: u64) -> (p: FilePos)
        requires
            old(self).w_offset + written <= u64::MAX,
        ensures
            p.offset == old(self).w_offset,
            final(self).w_offset == old(self).w_offset + written,
            final(self).r_offset == old(self).r_offset,
    {
        let ret = FilePos { offset: self.w_offset };
        self.w_offset = self.w_offset + written;
        ret
    }

    /// Reading starts over at the beginning of the file.
    pub fn iter_start(&mut self)
        ensures
            final(self).r_offset == 0,
            final(self).w_offset == old(self).w_offset,
    {
        self.r_offset = 0;
    }

    /// Takes in a line of `n` bytes read; returns where it started.
    pub fn line_read(&mut self, n: u64) -> (start: u64)
        requires
            old(self).r_offset + n <= u64::MAX,
        ensures
            start == old(self).r_offset,
            final(self).r_offset == old(self).r_offset + n,
            final(self).w_offset == old(self).w_offset,
    {
        let ret = self.r_offset;
        self.r_offset = self.r_offset + n;
        ret
    }
}

/// The write to the index that the record `op` at offset `off` makes.
pub open spec fn offset_write(off: u64, op: OpeView) -> Write<FilePos> {
    match op {
        OpeView::Put { k, .. } => (k, Some(FilePos { offset: off })),
        OpeView::Remove { k } => (k, None),
    }
}

/// The writes of the records `entries`, each with its offset.
pub open spec fn offset_writes(entries: Seq<(KvOpe, u64)>) -> Seq<Write<FilePos>> {
    entries.map_values(|e: (KvOpe, u64)| offset_write(e.1, e.0@))
}

/// Replaying the records `entries` onto `m`: a key takes the offset of its
/// last record when that record sets it, is gone when that record deletes
/// it, and keeps its entry in `m` when no record names it.
pub proof fn lemma_readall_last_record(m: Map<Seq<char>, FilePos>, entries: Seq<(KvOpe, u64)>)
    ensures
        forall|i: int|
            0 <= i < entries.len() && (forall|j: int| i < j < entries.len() ==> #[trigger] entries[j].0@.key() != entries[i].0@.key())
                ==> match #[trigger] entries[i].0@ {
                OpeView::Put { k, .. } => replay_writes(m, offset_writes(entries)).contains_key(k)
                    && replay_writes(m, offset_writes(entries))[k] == (FilePos { offset: entries[i].1 }),
                OpeView::Remove { k } => !replay_writes(m, offset_writes(entries)).contains_key(k),
            },
        forall|k: Seq<char>|
            #![trigger replay_writes(m, offset_writes(entries)).contains_key(k)]
            #![trigger m.contains_key(k)]
            (forall|i: int| 0 <= i < entries.len() ==> #[trigger] entries[i].0@.key() != k) ==> (
            replay_writes(m, offset_writes(entries)).contains_key(k) == m.contains_key(k)
            && (m.contains_key(k) ==> replay_writes(m, offset_writes(entries))[k] == m[k])),
{
    let ws = offset_writes(entries);
    assert(ws.len() == entries.len());
    assert forall|i: int| 0 <= i < entries.len() implies #[trigger] ws[i].0 == entries[i].0@.key() && ws[i].1 == (match entries[i].0@ {
        OpeView::Put { .. } => Some(FilePos { offset: entries[i].1 }),
        OpeView::Remove { .. } => None,
    }) by {}
    assert forall|i: int|
        0 <= i < entries.len() && (forall|j: int| i < j < entries.len() ==> #[trigger] entries[j].0@.key() != entries[i].0@.key())
            implies match #[trigger] entries[i].0@ {
            OpeView::Put { k, .. } => replay_writes(m, ws).contains_key(k) && replay_writes(m, ws)[k] == (FilePos { offset: entries[i].1 }),
            OpeView::Remove { k } => !replay_writes(m, ws).contains_key(k),
        } by {
        let k = entries[i].0@.key();
        crate::replay::lemma_replay_last(m, ws, k);
        assert(ws[i].0 == k);
        assert forall|j: int| i < j < ws.len() implies ws[j].0 != k by {
            assert(ws[j].0 == entries[j].0@.key());
        }
    }
    assert forall|k: Seq<char>|
        #![trigger replay_writes(m, ws).contains_key(k)]
        #![trigger m.contains_key(k)]
        (forall|i: int| 0 <= i < entries.len() ==> #[trigger] entries[i].0@.key() != k) implies (
        replay_writes(m, ws).contains_key(k) == m.contains_key(k)
        && (m.contains_key(k) ==> replay_writes(m, ws)[k] == m[k])) by {
        crate::replay::lemma_replay_last(m, ws, k);
        assert forall|i: int| 0 <= i < ws.len() implies #[trigger] ws[i].0 != k by {
            assert(entries[i].0@.key() != k);
        }
    }
}

/// The state behind the kernel's lock: the index and the offsets of the log
/// file.
pub struct PaKVCtxLock {
    pub store: KVIndexStore,
    pub file: LogOffsets,
}

impl PaKVCtxLock {
    /// An empty index over a log file of `len` bytes.
    pub fn new(len: u64) -> (c: PaKVCtxLock)
        ensures
            c.store.wf(),
            c.store@ == Map::<Seq<char>, FilePos>::empty(),
            c.file.w_offset == len,
            c.file.r_offset == 0,
    {
        PaKVCtxLock { store: KVIndexStore::create(), file: LogOffsets::new(len) }
    }

    /// Rebuilds the index from the records of the log file, in file order,
    /// each with its offset: a set points the key at its record, a delete
    /// removes it.
    pub fn readall(&mut self, entries: &Vec<(KvOpe, u64)>)
        requires
            old(self).store.wf(),
        ensures
            final(self).store.wf(),
            final(self).store@ == replay_writes(old(self).store@, offset_writes(entries@)),
            final(self).file == old(self).file,
            forall|i: int|
                0 <= i < entries@.len() && (forall|j: int| i < j < entries@.len() ==> #[trigger] entries@[j].0@.key() != entries@[i].0@.key())
                    ==> match #[trigger] entries@[i].0@ {
                    OpeView::Put { k, .. } => final(self).store@.contains_key(k)
                        && final(self).store@[k] == (FilePos { offset: entries@[i].1 }),
                    OpeView::Remove { k } => !final(self).store@.contains_key(k),
                },
            forall|k: Seq<char>|
                #![trigger final(self).store@.contains_key(k)]
                #![trigger old(self).store@.contains_key(k)]
                (forall|i: int| 0 <= i < entries@.len() ==> #[trigger] entries@[i].0@.key() != k) ==> (
                final(self).store@.contains_key(k) == old(self).store@.contains_key(k)
                && (old(self).store@.contains_key(k) ==> final(self).store@[k] == old(self).store@[k])),
    {
        let mut i: usize = 0;
        while i < entries.len()
            invariant
                self.store.wf(),
                i <= entries@.len(),
                self.store@ == replay_writes(old(self).store@, offset_writes(entries@.take(i as int))),
                self.file == old(self).file,
            decreases entries@.len() - i,
        {
            let pos = entries[i].1;
            match &entries[i].0.ope {
                KvOpeE::KvOpeSet { k, v: _ } => {
                    self.store.set(k.clone(), FilePos { offset: pos });
                },
                KvOpeE::KvOpeDel { k } => {
                    self.store.del(k);
                },
            }
            assert(offset_writes(entries@.take(i + 1)).drop_last() =~= offset_writes(entries@.take(i as int)));
            i = i + 1;
        }
        assert(entries@.take(i as int) =~= entries@);
        proof {
            lemma_readall_last_record(old(self).store@, entries@);
        }
    }

    /// Takes in a set of `k` whose record of `written` bytes was appended;
    /// returns where the record starts, which `k` now points at, and where
    /// the record of `k`'s previous value lies, if it had one.
    pub fn set_appended(&mut self, k: String, written: u64) -> (r: (FilePos, Option<FilePos>))
        requires
            old(self).store.wf(),
            old(self).file.w_offset + written <= u64::MAX,
        ensures
            final(self).store.wf(),
            r.0.offset == old(self).file.w_offset,
            r.1 == (if old(self).store@.contains_key(k@) { Some(old(self).store@[k@]) } else { None }),
            final(self).file.w_offset == old(self).file.w_offset + written,
            final(self).file.r_offset == old(self).file.r_offset,
            final(self).store@ == old(self).store@.insert(k@, r.0),
    {
        let prev = match self.store.get(&k) {
            Some(p) => Some(*p),
            None => None,
        };
        let p = self.file.appended(written);
        self.store.set(k, p);
        (p, prev)
    }

    /// Takes in a delete of `k` whose record of `written` bytes was appended;
    /// returns where the record of `k`'s previous value lies, if it had one.
    pub fn del_appended(&mut self, k: &String, written: u64) -> (prev: Option<FilePos>)
        requires
            old(self).store.wf(),
            old(self).file.w_offset + written <= u64::MAX,
        ensures
            final(self).store.wf(),
            prev == (if old(self).store@.contains_key(k@) { Some(old(self).store@[k@]) } else { None }),
            final(self).file.w_offset == old(self).file.w_offset + written,
            final(self).file.r_offset == old(self).file.r_offset,
            final(self).store@ == old(self).store@.remove(k@),
    {
        self.file.appended(written);
        self.store.del(k)
    }

    /// Switches to the compacted log: its index and its offsets.
    pub fn install_compacted(&mut self, map: KVIndexStore, file: LogOffsets)
        requires
            map.wf(),
        ensures
            final(self).store.wf(),
            final(self).store@ == map@,
            final(self).file == file,
    {
        self.store = map;
        self.file = file;
    }
}

/// The threshold that the log must reach before the first compaction.
pub const INITIAL_THRESHOLD: u64 = 1000;

/// The threshold after a log of `logsz` bytes: twice the size, and at least
/// twice the initial threshold.
pub open spec fn next_threshold(logsz: u64) -> int {
    2 * (if logsz > INITIAL_THRESHOLD { logsz } else { INITIAL_THRESHOLD })
}

/// What the compactor does after a user write.
pub enum CompressAction {
    /// The log is below the threshold.
    NotNeeded,
    /// A compaction runs; the write was recorded for it.
    Recorded,
    /// A compaction starts on a copy of the index.
    Start,
}

/// What the compaction does next.
pub enum CopyStep {
    /// Copy the record of `k` at `pos` of the old log into the compacted log.
    Copy { k: String, pos: FilePos },
    /// Every live record is copied.
    Finish,
}

/// The index that the records still to copy, the record being copied and
/// the records copied give together: a later source overrides an earlier
/// one.
pub open spec fn overlay(
    copied: Map<Seq<char>, FilePos>,
    copying: Option<(Seq<char>, FilePos)>,
    to_copy: Map<Seq<char>, FilePos>,
    written: Map<Seq<char>, FilePos>,
) -> Map<Seq<char>, FilePos> {
    let c = match copying {
        Some((k, p)) => copied.insert(k, p),
        None => copied,
    };
    c.union_prefer_right(to_copy).union_prefer_right(written)
}

/// The compactor's bookkeeping.
pub struct CompressBook {
    /// The log size at which a compaction starts.
    pub threshold: u64,
    /// Whether a compaction runs.
    pub compacting: bool,
    /// Keys written by users while the compaction runs, with their offsets in
    /// the old log; the compaction copies them after the copy of the index.
    pub new_opes_when_compact: KVIndexStore,
    /// The index of the compacted log built so far.
    pub compact_res_map: Option<KVIndexStore>,
    /// The records of the copy of the index taken at the start that are
    /// still to copy.
    pub to_copy: KVIndexStore,
    /// The record being copied.
    pub inflight: Option<(String, FilePos)>,
    /// The index as users have left it since the compaction started.
    pub live: Ghost<Map<Seq<char>, FilePos>>,
    /// For each key in the compacted index, the old position of the record
    /// copied for it.
    pub src: Ghost<Map<Seq<char>, FilePos>>,
}

impl CompressBook {
    /// The index as users have left it since the running compaction started.
    pub closed spec fn live(&self) -> Map<Seq<char>, FilePos> {
        self.live@
    }

    /// For each key of the compacted index, the position in the old log of
    /// the record copied for it.
    pub closed spec fn copied_from(&self) -> Map<Seq<char>, FilePos> {
        self.src@
    }

    /// The record being copied, if any: its key and its old position.
    pub closed spec fn copying(&self) -> Option<(Seq<char>, FilePos)> {
        match self.inflight {
            Some((k, p)) => Some((k@, p)),
            None => None,
        }
    }

    /// The records still to copy from the copy of the index.
    pub closed spec fn to_copy(&self) -> Map<Seq<char>, FilePos> {
        self.to_copy@
    }

    /// The recorded maps are well formed, and while a compaction runs, the
    /// live index is what the copied records, the record being copied and
    /// the records still to copy give together, and the compacted index
    /// holds exactly the copied keys.
    pub closed spec fn wf(&self) -> bool {
        &&& self.new_opes_when_compact.wf()
        &&& self.to_copy.wf()
        &&& self.compact_res_map matches Some(m) ==> m.wf()
        &&& self.compacting ==> {
            &&& self.compact_res_map is Some
            &&& self.compact_res_map->0@.dom() == self.src@.dom()
            &&& self.live@ == overlay(self.src@, self.copying(), self.to_copy@, self.new_opes_when_compact@)
        }
    }

    /// No compaction yet; the first starts at the initial threshold.
    pub fn new() -> (b: CompressBook)
        ensures
            b.wf(),
            b.threshold == INITIAL_THRESHOLD,
            !b.compacting,
            b.new_opes_when_compact@ == Map::<Seq<char>, FilePos>::empty(),
            b.compact_res_map is None,
    {
        CompressBook {
            threshold: INITIAL_THRESHOLD,
            compacting: false,
            new_opes_when_compact: KVIndexStore::create(),
            compact_res_map: None,
            to_copy: KVIndexStore::create(),
            inflight: None,
            live: Ghost(Map::empty()),
            src: Ghost(Map::empty()),
        }
    }

    /// Sets the threshold from the size of the log.
    pub fn update_threshold(&mut self, logsz: u64)
        requires
            old(self).wf(),
            logsz <= u64::MAX / 2,
        ensures
            final(self).wf(),
            final(self).threshold == next_threshold(logsz),
            final(self).compacting == old(self).compacting,
            final(self).new_opes_when_compact@ == old(self).new_opes_when_compact@,
            final(self).compact_res_map == old(self).compact_res_map,
            final(self).live() == old(self).live(),
            final(self).copied_from() == old(self).copied_from(),
    {
        let m = if INITIAL_THRESHOLD > logsz { INITIAL_THRESHOLD } else { logsz };
        self.threshold = m * 2;
    }

    /// After a user write that leaves the log at `cur_f_sz` bytes and the
    /// index at `store`: below the threshold nothing happens; otherwise,
    /// while a compaction runs, a set of `k` is recorded to be copied, and a
    /// delete of `k` is taken out of the compacted index and of everything
    /// still to copy; otherwise a compaction starts on a copy of `store`.
    pub fn start_compress_if_need(
        &mut self,
        cur_f_sz: u64,
        store: &KVIndexStore,
        new_ope: Option<(String, FilePos)>,
        insert_or_del: bool,
    ) -> (act: CompressAction)
        requires
            old(self).wf(),
            store.wf(),
        ensures
            final(self).wf(),
            final(self).threshold == old(self).threshold,
            cur_f_sz < old(self).threshold ==> {
                &&& act is NotNeeded
                &&& final(self).compacting == old(self).compacting
                &&& final(self).new_opes_when_compact@ == old(self).new_opes_when_compact@
                &&& final(self).compact_res_map == old(self).compact_res_map
                &&& final(self).live() == old(self).live()
                &&& final(self).copied_from() == old(self).copied_from()
                &&& final(self).copying() == old(self).copying()
                &&& final(self).to_copy() == old(self).to_copy()
            },
            cur_f_sz >= old(self).threshold && old(self).compacting ==> {
                &&& act is Recorded
                &&& final(self).compacting
                &&& match new_ope {
                    None => final(self).live() == old(self).live()
                        && final(self).new_opes_when_compact@ == old(self).new_opes_when_compact@
                        && final(self).compact_res_map == old(self).compact_res_map,
                    Some((k, fp)) => if insert_or_del {
                        &&& final(self).live() == old(self).live().insert(k@, fp)
                        &&& final(self).new_opes_when_compact@ == old(self).new_opes_when_compact@.insert(k@, fp)
                        &&& final(self).compact_res_map == old(self).compact_res_map
                    } else {
                        &&& final(self).live() == old(self).live().remove(k@)
                        &&& final(self).new_opes_when_compact@ == old(self).new_opes_when_compact@.remove(k@)
                        &&& final(self).to_copy() == old(self).to_copy().remove(k@)
                        &&& final(self).compact_res_map matches Some(m) && old(self).compact_res_map matches Some(m0)
                            && m@ == m0@.remove(k@)
                    },
                }
            },
            cur_f_sz >= old(self).threshold && !old(self).compacting ==> {
                &&& act is Start
                &&& final(self).compacting
                &&& final(self).live() == store@
                &&& final(self).to_copy() == store@
                &&& final(self).copied_from() == Map::<Seq<char>, FilePos>::empty()
                &&& final(self).copying() is None
                &&& final(self).new_opes_when_compact@ == Map::<Seq<char>, FilePos>::empty()
                &&& final(self).compact_res_map matches Some(m) && m@ == Map::<Seq<char>, FilePos>::empty()
            },
    {
        if cur_f_sz < self.threshold {
            return CompressAction::NotNeeded;
        }
        if self.compacting {
            if let Some((key, fp)) = new_ope {
                if insert_or_del {
                    proof {
                        self.live = Ghost(self.live@.insert(key@, fp));
                    }
                    self.new_opes_when_compact.set(key, fp);
                    assert(self.live@ =~= overlay(self.src@, self.copying(), self.to_copy@, self.new_opes_when_compact@));
                } else {
                    proof {
                        self.live = Ghost(self.live@.remove(key@));
                        self.src = Ghost(self.src@.remove(key@));
                    }
                    match &mut self.compact_res_map {
                        Some(m) => {
                            m.del(&key);
                        },
                        None => {},
                    }
                    self.new_opes_when_compact.del(&key);
                    self.to_copy.del(&key);
                    let drop = match &self.inflight {
                        Some((ik, _)) => ik.eq(&key),
                        None => false,
                    };
                    if drop {
                        self.inflight = None;
                    }
                    assert(self.compact_res_map->0@.dom() =~= self.src@.dom());
                    assert(self.live@ =~= overlay(self.src@, self.copying(), self.to_copy@, self.new_opes_when_compact@));
                }
            }
            return CompressAction::Recorded;
        }
        let snap = store.snapshot();
        let mut todo = KVIndexStore::create();
        let mut i: usize = 0;
        while i < snap.len()
            invariant
                todo.wf(),
                store.wf(),
                i <= snap@.len(),
                snap@.len() == store@.dom().len(),
                forall|j: int| 0 <= j < snap@.len() ==> #[trigger] store@.contains_key(snap@[j].0@) && store@[snap@[j].0@] == snap@[j].1,
                forall|k: Seq<char>| #[trigger] store@.contains_key(k) ==> exists|j: int| 0 <= j < snap@.len() && snap@[j].0@ == k,
                forall|k: Seq<char>| #[trigger] todo@.contains_key(k) <==> exists|j: int| 0 <= j < i && snap@[j].0@ == k,
                forall|k: Seq<char>| #[trigger] todo@.contains_key(k) ==> store@.contains_key(k) && todo@[k] == store@[k],
            decreases snap@.len() - i,
        {
            assert(store@.contains_key(snap@[i as int].0@));
            todo.set(snap[i].0.clone(), snap[i].1);
            i = i + 1;
        }
        assert(todo@ =~= store@);
        self.to_copy = todo;
        self.inflight = None;
        self.new_opes_when_compact = KVIndexStore::create();
        self.compact_res_map = Some(KVIndexStore::create());
        proof {
            self.live = Ghost(store@);
            self.src = Ghost(Map::empty());
        }
        self.compacting = true;
        assert(self.compact_res_map->0@.dom() =~= self.src@.dom());
        assert(self.live@ =~= overlay(self.src@, self.copying(), self.to_copy@, self.new_opes_when_compact@));
        CompressAction::Start
    }

    /// The next record to copy: the one being copied, if any; otherwise one
    /// taken out of the copy of the index, then out of the keys written
    /// since the start. When none is left, every key of the live index has
    /// been copied, from the position that the live index gives it, and the
    /// compacted index holds exactly the live keys.
    pub fn next_copy(&mut self) -> (s: CopyStep)
        requires
            old(self).wf(),
            old(self).compacting,
        ensures
            final(self).wf(),
            final(self).compacting,
            final(self).threshold == old(self).threshold,
            final(self).live() == old(self).live(),
            final(self).compact_res_map == old(self).compact_res_map,
            match s {
                CopyStep::Copy { k, pos } => {
                    &&& final(self).copying() == Some((k@, pos))
                    &&& old(self).copying() is Some ==> old(self).copying() == Some((k@, pos))
                        && final(self).to_copy() == old(self).to_copy()
                        && final(self).new_opes_when_compact@ == old(self).new_opes_when_compact@
                    &&& old(self).copying() is None && old(self).to_copy().contains_key(k@) ==> {
                        &&& pos == old(self).to_copy()[k@]
                        &&& final(self).to_copy() == old(self).to_copy().remove(k@)
                        &&& final(self).new_opes_when_compact@ == old(self).new_opes_when_compact@
                    }
                    &&& old(self).copying() is None && !old(self).to_copy().contains_key(k@) ==> {
                        &&& old(self).to_copy() == Map::<Seq<char>, FilePos>::empty()
                        &&& old(self).new_opes_when_compact@.contains_key(k@)
                        &&& pos == old(self).new_opes_when_compact@[k@]
                        &&& final(self).to_copy() == old(self).to_copy()
                        &&& final(self).new_opes_when_compact@ == old(self).new_opes_when_compact@.remove(k@)
                    }
                },
                CopyStep::Finish => {
                    &&& final(self).copied_from() == final(self).live()
                    &&& final(self).compact_res_map matches Some(m) && m@.dom() == final(self).live().dom()
                    &&& final(self).to_copy() == Map::<Seq<char>, FilePos>::empty()
                    &&& final(self).new_opes_when_compact@ == Map::<Seq<char>, FilePos>::empty()
                    &&& final(self).copying() is None
                },
            },
    {
        match &self.inflight {
            Some((k, p)) => {
                return CopyStep::Copy { k: k.clone(), pos: *p };
            },
            None => {},
        }
        match self.to_copy.pop_any() {
            Some((k, p)) => {
                self.inflight = Some((k.clone(), p));
                assert(self.live@ =~= overlay(self.src@, self.copying(), self.to_copy@, self.new_opes_when_compact@));
                return CopyStep::Copy { k, pos: p };
            },
            None => {},
        }
        match self.new_opes_when_compact.pop_any() {
            Some((k, p)) => {
                self.inflight = Some((k.clone(), p));
                assert(self.live@ =~= overlay(self.src@, self.copying(), self.to_copy@, self.new_opes_when_compact@));
                CopyStep::Copy { k, pos: p }
            },
            None => {
                assert(self.live@ =~= self.src@);
                CopyStep::Finish
            },
        }
    }

    /// The record being copied now lies at `newpos` of the compacted log:
    /// the compacted index points its key there.
    pub fn copied(&mut self, newpos: FilePos)
        requires
            old(self).wf(),
            old(self).compacting,
        ensures
            final(self).wf(),
            final(self).compacting,
            final(self).threshold == old(self).threshold,
            final(self).live() == old(self).live(),
            final(self).new_opes_when_compact@ == old(self).new_opes_when_compact@,
            final(self).to_copy() == old(self).to_copy(),
            match old(self).copying() {
                Some((k, p)) => {
                    &&& final(self).copied_from() == old(self).copied_from().insert(k, p)
                    &&& final(self).compact_res_map matches Some(m) && old(self).compact_res_map matches Some(m0)
                        && m@ == m0@.insert(k, newpos)
                    &&& final(self).copying() is None
                },
                None => final(self).copied_from() == old(self).copied_from()
                    && final(self).compact_res_map == old(self).compact_res_map,
            },
    {
        let cur = self.inflight.take();
        match cur {
            Some((k, p)) => {
                proof {
                    self.src = Ghost(self.src@.insert(k@, p));
                }
                match &mut self.compact_res_map {
                    Some(m) => {
                        m.set(k, newpos);
                    },
                    None => {},
                }
                assert(self.compact_res_map->0@.dom() =~= self.src@.dom());
                assert(self.live@ =~= overlay(self.src@, self.copying(), self.to_copy@, self.new_opes_when_compact@));
            },
            None => {},
        }
    }

    /// The compaction is done: its log of `comp_size` bytes sets the next
    /// threshold.
    pub fn finish_compaction(&mut self, comp_size: u64)
        requires
            old(self).wf(),
            comp_size <= u64::MAX / 2,
        ensures
            final(self).wf(),
            !final(self).compacting,
            final(self).threshold == next_threshold(comp_size),
            final(self).new_opes_when_compact@ == old(self).new_opes_when_compact@,
            final(self).compact_res_map == old(self).compact_res_map,
    {
        let m = if comp_size > INITIAL_THRESHOLD { comp_size } else { INITIAL_THRESHOLD };
        self.threshold = m * 2;
        self.compacting = false;
    }

    /// Hands over the compacted index of a finished compaction, if one
    /// waits.
    pub fn take_result(&mut self) -> (r: Option<KVIndexStore>)
        requires
            old(self).wf(),
        ensures
            final(self).wf(),
            final(self).compacting == old(self).compacting,
            final(self).threshold == old(self).threshold,
            !old(self).compacting && old(self).compact_res_map is Some ==> {
                &&& r matches Some(m) && old(self).compact_res_map matches Some(m0) && m@ == m0@ && m.wf()
                &&& final(self).compact_res_map is None
            },
            old(self).compacting || old(self).compact_res_map is None ==> r is None
                && final(self).compact_res_map == old(self).compact_res_map,
    {
        if self.compacting {
            return None;
        }
        self.compact_res_map.take()
    }
}

/// Whether a compaction step that began writing at `beginpos` and has now
/// written up to `pos` has written enough to check for users.
pub fn should_pause(pos: u64, beginpos: u64) -> (r: bool)
    requires
        beginpos <= pos,
    ensures
        r == (pos - beginpos > INITIAL_THRESHOLD),
{
    pos - beginpos > INITIAL_THRESHOLD
}

} // verus!
