//! The index of the threaded server, which keeps serving writes while a
//! compaction rewrites the old log files in the background.
//!
//! While a compaction runs, every key that a user writes is remembered; when
//! the compaction reports the new positions of the records it rewrote, the
//! remembered keys are left alone, so that the user's newer write wins.
use crate::compact::{max_id, CompactCtx};
use crate::logfile::{FilePos, LogFileId};
use crate::meta::{MetaFileOpe, MetaFileStore};
use crate::serial::{KvOpe, KvOpeE};
use vstd::hash_set::StringHashSet;
use vstd::prelude::*;

pub use crate::index::KVStore;

verus! {

/// A log file larger than this many bytes is compacted.
pub const LOG_FILE_MAX: u64 = 1048576;

/// `m` after the positions reported by a compaction, which rewrote the
/// records `es` (key and new offset) into file `fid`; keys in `user` are
/// skipped.
pub open spec fn apply_batch(
    m: Map<Seq<char>, FilePos>,
    user: Set<Seq<char>>,
    fid: u64,
    es: Seq<(String, u64)>,
) -> Map<Seq<char>, FilePos>
    decreases es.len(),
{
    if es.len() == 0 {
        m
    } else {
        let m1 = apply_batch(m, user, fid, es.drop_last());
        let e = es.last();
        if user.contains(e.0@) {
            m1
        } else {
            m1.insert(e.0@, FilePos { file_id: fid, pos: e.1 })
        }
    }
}

/// The index with its compaction state.
pub struct PaKVCtx {
    pub store: KVStore<FilePos>,
    /// The log file that user writes go to.
    pub tarfid: LogFileId,
    /// Whether a compaction runs.
    pub compacting: bool,
    /// The keys that users wrote since the running compaction started.
    pub user_opek_whencompact: StringHashSet,
    pub meta_file_ope: MetaFileOpe,
}

impl PaKVCtx {
    /// The context holds a well-formed index.
    pub open spec fn wf(&self) -> bool {
        self.store.wf()
    }

    /// An empty index that writes to file 1, no compaction running.
    pub fn create() -> (c: PaKVCtx)
        ensures
            c.wf(),
            c.store@ == Map::<Seq<char>, FilePos>::empty(),
            c.tarfid.id == 1,
            !c.compacting,
            c.user_opek_whencompact@ == Set::<Seq<char>>::empty(),
            c.meta_file_ope.store is None,
    {
        PaKVCtx {
            store: KVStore::create(),
            tarfid: LogFileId { id: 1 },
            compacting: false,
            user_opek_whencompact: StringHashSet::new(),
            meta_file_ope: MetaFileOpe::create(),
        }
    }

    /// Takes in a set of `k` whose record was appended at offset `pos` of the
    /// target file. Returns whether a compaction has to start.
    pub fn set(&mut self, k: String, pos: u64) -> (need_compact: bool)
        requires
            old(self).wf(),
        ensures
            final(self).wf(),
            final(self).store@ == old(self).store@.insert(k@, FilePos { file_id: old(self).tarfid.id, pos }),
            final(self).tarfid == old(self).tarfid,
            final(self).compacting == old(self).compacting,
            final(self).meta_file_ope.store == old(self).meta_file_ope.store,
            final(self).user_opek_whencompact@ == (if old(self).compacting {
                old(self).user_opek_whencompact@.insert(k@)
            } else {
                old(self).user_opek_whencompact@
            }),
            need_compact == (!old(self).compacting && pos >= LOG_FILE_MAX),
    {
        let kc = k.clone();
        self.store.set(k, &FilePos { file_id: self.tarfid.id, pos });
        if self.compacting {
            self.user_opek_whencompact.insert(kc);
            false
        } else {
            Self::compact_ifneed(pos)
        }
    }

    /// Takes in a delete of `k` whose record was appended at offset `pos` of
    /// the target file. Returns the position `k` had, if any, and whether a
    /// compaction has to start.
    pub fn del(&mut self, k: &String, pos: u64) -> (r: (Option<FilePos>, bool))
        requires
            old(self).wf(),
        ensures
            final(self).wf(),
            final(self).store@ == old(self).store@.remove(k@),
            r.0 == (if old(self).store@.contains_key(k@) { Some(old(self).store@[k@]) } else { None }),
            final(self).tarfid == old(self).tarfid,
            final(self).compacting == old(self).compacting,
            final(self).meta_file_ope.store == old(self).meta_file_ope.store,
            final(self).user_opek_whencompact@ == (if old(self).compacting {
                old(self).user_opek_whencompact@.insert(k@)
            } else {
                old(self).user_opek_whencompact@
            }),
            r.1 == (!old(self).compacting && pos >= LOG_FILE_MAX),
    {
        let ret = self.store.del(k);
        if self.compacting {
            self.user_opek_whencompact.insert(k.clone());
            (ret, false)
        } else {
            (ret, Self::compact_ifneed(pos))
        }
    }

    /// Whether a record appended at `curpos` makes the target file large
    /// enough to compact.
    pub fn compact_ifneed(curpos: u64) -> (r: bool)
        ensures
            r == (curpos >= LOG_FILE_MAX),
    {
        curpos >= LOG_FILE_MAX
    }

    /// Starts a compaction of the files `fromids`: user writes move to a new
    /// target file, which becomes the meta record. Returns the compaction and
    /// the meta record to persist.
    pub fn start_compaction(&mut self, fromids: Vec<LogFileId>) -> (r: (CompactCtx, MetaFileStore))
        requires
            old(self).wf(),
            max_id(fromids@, 1) < u64::MAX,
        ensures
            final(self).wf(),
            final(self).compacting,
            r.0.compactfrom_fids@ == fromids@,
            r.0.compact2_fids@ == Seq::<LogFileId>::empty(),
            r.0.tarfid.id == max_id(fromids@, 1) + 1,
            final(self).tarfid == r.0.tarfid,
            final(self).meta_file_ope.store == Some(r.1),
            r.1.usertarfid == r.0.tarfid.id,
            final(self).store@ == old(self).store@,
            final(self).user_opek_whencompact@ == old(self).user_opek_whencompact@,
    {
        self.compacting = true;
        let compact = CompactCtx::create(fromids);
        let persist = self.meta_file_ope.set_usertar_fid(compact.tarfid.id);
        self.tarfid = compact.tarfid;
        (compact, persist)
    }

    /// Takes in the new positions of the records that a compaction rewrote
    /// into file `fid`, skipping the keys that users wrote meanwhile.
    pub fn batch_update(&mut self, fid: LogFileId, map_k2pos: Vec<(String, u64)>)
        requires
            old(self).wf(),
        ensures
            final(self).wf(),
            final(self).compacting,
            final(self).store@ == apply_batch(old(self).store@, old(self).user_opek_whencompact@, fid.id, map_k2pos@),
            final(self).tarfid == old(self).tarfid,
            final(self).user_opek_whencompact@ == old(self).user_opek_whencompact@,
            final(self).meta_file_ope.store == old(self).meta_file_ope.store,
    {
        self.compacting = true;
        let mut i: usize = 0;
        while i < map_k2pos.len()
            invariant
                self.wf(),
                self.compacting,
                i <= map_k2pos@.len(),
                self.store@ == apply_batch(old(self).store@, old(self).user_opek_whencompact@, fid.id, map_k2pos@.take(i as int)),
                self.tarfid == old(self).tarfid,
                self.user_opek_whencompact@ == old(self).user_opek_whencompact@,
                self.meta_file_ope.store == old(self).meta_file_ope.store,
            decreases map_k2pos@.len() - i,
        {
            assert(map_k2pos@.take(i + 1).drop_last() =~= map_k2pos@.take(i as int));
            let k = &map_k2pos[i].0;
            let pos = map_k2pos[i].1;
            if !self.user_opek_whencompact.contains(k.as_str()) {
                self.store.set(k.clone(), &FilePos { file_id: fid.id, pos });
            }
            i = i + 1;
        }
        assert(map_k2pos@.take(i as int) =~= map_k2pos@);
    }

    /// The running compaction is over: the remembered keys are forgotten.
    pub fn compact_end(&mut self)
        ensures
            !final(self).compacting,
            final(self).user_opek_whencompact@ == Set::<Seq<char>>::empty(),
            final(self).store == old(self).store,
            final(self).tarfid == old(self).tarfid,
            final(self).meta_file_ope.store == old(self).meta_file_ope.store,
    {
        self.compacting = false;
        self.user_opek_whencompact.clear();
    }
}

/// The value that a get returns, given the record read at the key's position
/// (`None` when it could not be read or parsed): the value of a set record,
/// and nothing otherwise.
pub fn value_of_record(rec: Option<KvOpe>) -> (r: Option<String>)
    ensures
        r matches Some(v) ==> (rec matches Some(o) && o@ matches crate::serial::OpeView::Put { v: v2, .. } && v@ == v2),
        r is None ==> !(rec matches Some(o) && o@ is Put),
{
    match rec {
        Some(ope) => match ope.ope {
            KvOpeE::KvOpeSet { k: _, v } => Some(v),
            _ => None,
        },
        None => None,
    }
}

/// A key that a user wrote while a compaction runs keeps the value the user
/// gave it when the compaction reports its rewritten positions.
pub proof fn lemma_batch_keeps_user_writes(
    m: Map<Seq<char>, FilePos>,
    user: Set<Seq<char>>,
    fid: u64,
    es: Seq<(String, u64)>,
    k: Seq<char>,
)
    requires
        user.contains(k),
    ensures
        apply_batch(m, user, fid, es).contains_key(k) == m.contains_key(k),
        m.contains_key(k) ==> apply_batch(m, user, fid, es)[k] == m[k],
    decreases es.len(),
{
    if es.len() > 0 {
        lemma_batch_keeps_user_writes(m, user, fid, es.drop_last(), k);
    }
}

/// A key that no user wrote during the compaction points, after the report,
/// at its last rewritten record in `fid`.
pub proof fn lemma_batch_moves_other_keys(
    m: Map<Seq<char>, FilePos>,
    user: Set<Seq<char>>,
    fid: u64,
    es: Seq<(String, u64)>,
    i: int,
)
    requires
        0 <= i < es.len(),
        !user.contains(es[i].0@),
        forall|j: int| i < j < es.len() ==> #[trigger] es[j].0@ != es[i].0@,
    ensures
        apply_batch(m, user, fid, es).contains_key(es[i].0@),
        apply_batch(m, user, fid, es)[es[i].0@] == (FilePos { file_id: fid, pos: es[i].1 }),
    decreases es.len(),
{
    let n = es.len() - 1;
    if i < n {
        let d = es.drop_last();
        assert(d[i] == es[i]);
        assert forall|j: int| i < j < d.len() implies #[trigger] d[j].0@ != d[i].0@ by {
            assert(d[j] == es[j]);
        }
        lemma_batch_moves_other_keys(m, user, fid, d, i);
        assert(es[n].0@ != es[i].0@);
    }
}

/// A key that no compaction record mentions keeps its position.
pub proof fn lemma_batch_leaves_unmentioned_keys(
    m: Map<Seq<char>, FilePos>,
    user: Set<Seq<char>>,
    fid: u64,
    es: Seq<(String, u64)>,
    k: Seq<char>,
)
    requires
        forall|j: int| 0 <= j < es.len() ==> #[trigger] es[j].0@ != k,
    ensures
        apply_batch(m, user, fid, es).contains_key(k) == m.contains_key(k),
        m.contains_key(k) ==> apply_batch(m, user, fid, es)[k] == m[k],
    decreases es.len(),
{
    if es.len() > 0 {
        let d = es.drop_last();
        assert forall|j: int| 0 <= j < d.len() implies #[trigger] d[j].0@ != k by {
            assert(d[j] == es[j]);
        }
        lemma_batch_leaves_unmentioned_keys(m, user, fid, d, k);
        assert(es[es.len() - 1].0@ != k);
    }
}

} // verus!
